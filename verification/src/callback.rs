use vstd::prelude::*;

verus! {

/// Which kind of callback an option invokes when it is matched.
#[derive(Debug, Clone, Copy, PartialEq, Eq, Structural)]
pub enum CallbackType {
    /// Invoked with the option itself.
    Value,
    /// Invoked with the non-option argument at the option's position.
    Index,
    /// Invoked with all non-option arguments.
    Main,
    Null,
}

impl CallbackType {
    pub fn is_value(&self) -> (r: bool)
        ensures
            r == (*self == CallbackType::Value),
    {
        match self {
            CallbackType::Value => true,
            _ => false,
        }
    }

    pub fn is_index(&self) -> (r: bool)
        ensures
            r == (*self == CallbackType::Index),
    {
        match self {
            CallbackType::Index => true,
            _ => false,
        }
    }

    pub fn is_main(&self) -> (r: bool)
        ensures
            r == (*self == CallbackType::Main),
    {
        match self {
            CallbackType::Main => true,
            _ => false,
        }
    }

    pub fn is_null(&self) -> (r: bool)
        ensures
            r == (*self == CallbackType::Null),
    {
        match self {
            CallbackType::Null => true,
            _ => false,
        }
    }
}

impl Default for CallbackType {
    fn default() -> (r: Self)
        ensures
            r == CallbackType::Null,
    {
        CallbackType::Null
    }
}

} // verus!

use crate::error::Result;
use crate::opt::common::CommonOpt;
use crate::set::DefaultSet;

verus! {

/// A callback invoked with an option whose value was set.
pub trait ValueCallback {
    fn call(&mut self, opt: &CommonOpt) -> Result<bool>;
}

/// A callback invoked with the non-option argument at the position of a `pos`.
pub trait IndexCallback {
    fn call(&mut self, set: &DefaultSet, arg: &String) -> Result<bool>;
}

/// A callback invoked with all non-option arguments.
pub trait MainCallback {
    fn call(&mut self, set: &DefaultSet, args: &Vec<String>) -> Result<bool>;
}

/// The callback of an option.
pub enum OptCallback {
    Value(Box<dyn ValueCallback>),
    Index(Box<dyn IndexCallback>),
    Main(Box<dyn MainCallback>),
    Null,
}

impl OptCallback {
    pub fn from_value(cb: Box<dyn ValueCallback>) -> (r: Self)
        ensures
            r is Value,
    {
        OptCallback::Value(cb)
    }

    pub fn from_index(cb: Box<dyn IndexCallback>) -> (r: Self)
        ensures
            r is Index,
    {
        OptCallback::Index(cb)
    }

    pub fn from_main(cb: Box<dyn MainCallback>) -> (r: Self)
        ensures
            r is Main,
    {
        OptCallback::Main(cb)
    }

    /// The callback type this callback answers to.
    pub open spec fn spec_type(&self) -> CallbackType {
        match self {
            OptCallback::Value(_) => CallbackType::Value,
            OptCallback::Index(_) => CallbackType::Index,
            OptCallback::Main(_) => CallbackType::Main,
            OptCallback::Null => CallbackType::Null,
        }
    }

    pub fn to_callback_type(&self) -> (r: CallbackType)
        ensures
            r == self.spec_type(),
    {
        match self {
            OptCallback::Value(_) => CallbackType::Value,
            OptCallback::Index(_) => CallbackType::Index,
            OptCallback::Main(_) => CallbackType::Main,
            OptCallback::Null => CallbackType::Null,
        }
    }

    /// Call a value callback, and record the call in `calls` under `key`; any
    /// other callback answers false and is not called.
    pub fn call_value(&mut self, opt: &CommonOpt, Ghost(key): Ghost<u64>, calls: &mut Ghost<Seq<CallRecord>>) -> (r: Result<bool>)
        ensures
            old(self).spec_type() == CallbackType::Value ==> final(calls)@ == old(calls)@.push(CallRecord::Value(key, *opt, r)),
            old(self).spec_type() != CallbackType::Value ==> r == Ok::<bool, crate::error::Error>(false)
                && final(calls)@ == old(calls)@,
            final(self).spec_type() == old(self).spec_type(),
    {
        match self {
            OptCallback::Value(cb) => {
                let r = cb.call(opt);
                *calls = Ghost(calls@.push(CallRecord::Value(key, *opt, r)));
                r
            },
            _ => Ok(false),
        }
    }

    /// Call an index callback with the non-option argument `arg`, and record the
    /// call in `calls` under `key`; any other callback answers false and is not
    /// called.
    pub fn call_index(&mut self, set: &DefaultSet, arg: &String, Ghost(key): Ghost<u64>, calls: &mut Ghost<Seq<CallRecord>>) -> (r: Result<bool>)
        ensures
            old(self).spec_type() == CallbackType::Index ==> final(calls)@ == old(calls)@.push(CallRecord::Index(key, arg@, r)),
            old(self).spec_type() != CallbackType::Index ==> r == Ok::<bool, crate::error::Error>(false)
                && final(calls)@ == old(calls)@,
            final(self).spec_type() == old(self).spec_type(),
    {
        match self {
            OptCallback::Index(cb) => {
                let r = cb.call(set, arg);
                *calls = Ghost(calls@.push(CallRecord::Index(key, arg@, r)));
                r
            },
            _ => Ok(false),
        }
    }

    /// Call a main callback with all the non-option arguments `args`, and record
    /// the call in `calls` under `key`; any other callback answers false and is not
    /// called.
    pub fn call_main(&mut self, set: &DefaultSet, args: &Vec<String>, Ghost(key): Ghost<u64>, calls: &mut Ghost<Seq<CallRecord>>) -> (r: Result<bool>)
        ensures
            old(self).spec_type() == CallbackType::Main ==> final(calls)@ == old(calls)@.push(CallRecord::Main(key,
                crate::arg::strings_view(args@), r)),
            old(self).spec_type() != CallbackType::Main ==> r == Ok::<bool, crate::error::Error>(false)
                && final(calls)@ == old(calls)@,
            final(self).spec_type() == old(self).spec_type(),
    {
        match self {
            OptCallback::Main(cb) => {
                let r = cb.call(set, args);
                *calls = Ghost(calls@.push(CallRecord::Main(key, crate::arg::strings_view(args@), r)));
                r
            },
            _ => Ok(false),
        }
    }
}

/// One call of a callback: the identifier of the option it was registered for,
/// what it was handed, and what it answered.
pub enum CallRecord {
    /// A value callback, handed the option.
    Value(u64, CommonOpt, Result<bool>),
    /// An index callback, handed one non-option argument.
    Index(u64, Seq<char>, Result<bool>),
    /// A main callback, handed all the non-option arguments.
    Main(u64, Seq<Seq<char>>, Result<bool>),
}

impl CallRecord {
    /// What the callback answered.
    pub open spec fn answer(self) -> Result<bool> {
        match self {
            CallRecord::Value(_, _, a) => a,
            CallRecord::Index(_, _, a) => a,
            CallRecord::Main(_, _, a) => a,
        }
    }
}

} // verus!
