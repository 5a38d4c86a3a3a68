//! The scripting VM and the channel that hands it from one holder to the
//! next.

use crossbeam::channel::Receiver;
use crossbeam::channel::SendError;
use crossbeam::channel::Sender;
use rlua::Lua;
use vstd::prelude::*;

verus! {

/// `rlua::Lua`: the scripting VM. There is one, and whoever holds the value
/// holds the VM. Opaque here.
#[verifier::external_type_specification]
#[verifier::external_body]
pub struct ExLua(rlua::Lua);

/// `rlua::RegistryKey`: names one function that lives inside the VM. Opaque
/// here.
#[verifier::external_type_specification]
#[verifier::external_body]
pub struct ExRegistryKey(rlua::RegistryKey);

/// `rlua::Error`: what a failed call into the VM reports. Opaque here.
#[verifier::external_type_specification]
#[verifier::external_body]
pub struct ExError(rlua::Error);

/// `crossbeam::channel::Sender`: the sending end of a channel. Opaque here.
#[verifier::external_type_specification]
#[verifier::external_body]
#[verifier::reject_recursive_types(T)]
pub struct ExSender<T>(crossbeam::channel::Sender<T>);

/// `crossbeam::channel::Receiver`: the receiving end of a channel. Opaque
/// here.
#[verifier::external_type_specification]
#[verifier::external_body]
#[verifier::reject_recursive_types(T)]
pub struct ExReceiver<T>(crossbeam::channel::Receiver<T>);

/// `Receiver::recv` waits until a message is in the channel and takes it out.
/// It gives up only when the channel is empty and every sender is gone; that
/// is `None` here. Nothing is claimed about which of the two happens.
#[verifier::external_body]
pub(crate) fn receive_vm(receiver: &Receiver<Lua>) -> (vm: Option<Lua>) {
    receiver.recv().ok()
}

/// `Sender::send` waits until the channel has room and puts the message in.
/// It gives up only when every receiver is gone, and then its error holds the
/// message that was not sent; that message is the `Some` here. Nothing is
/// claimed about which of the two happens.
#[verifier::external_body]
pub(crate) fn send_vm(sender: &Sender<Lua>, vm: Lua) -> (unsent: Option<Lua>)
    ensures
        unsent matches Some(back) ==> back == vm,
{
    match sender.send(vm) {
        Ok(()) => None,
        Err(SendError(back)) => Some(back),
    }
}

/// `Lua::context` with `Context::expire_registry_values`: removes from the
/// VM's registry the values whose keys were dropped. It returns nothing.
#[verifier::external_body]
pub(crate) fn expire_registry(vm: &Lua) {
    vm.context(|context| context.expire_registry_values())
}

} // verus!
