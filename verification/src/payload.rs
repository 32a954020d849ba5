use crate::error::{ZFError, ZFResult};
use crate::message::share;
use std::sync::Arc;
use vstd::prelude::*;

verus! {

/// A value that can be written to bytes, to cross from one runtime to
/// another.
pub trait ZFData {
    fn try_serialize(&self) -> ZFResult<Vec<u8>>;
}

/// A value that can be read from the bytes it was written to.
pub trait Deserializable: Sized {
    fn try_deserialize(bytes: &[u8]) -> ZFResult<Self>;
}

/// A payload: a value as the nodes of one runtime share it, or the bytes of
/// a value that has come from another runtime and has not been read yet.
/// Neither is ever changed.
#[derive(Debug, PartialEq)]
pub enum Data<T> {
    Bytes(Arc<Vec<u8>>),
    Typed(Arc<T>),
}

impl<T> Clone for Data<T> {
    /// Another handle to the same payload.
    fn clone(&self) -> (r: Self)
        ensures
            r == *self,
    {
        match self {
            Data::Bytes(bytes) => Data::Bytes(share(bytes)),
            Data::Typed(value) => Data::Typed(share(value)),
        }
    }
}

impl<T> Data<T> {
    /// The payload that holds a value.
    pub fn from(data: T) -> (r: Self)
        ensures
            r matches Data::Typed(value) && *value == data,
    {
        Data::Typed(Arc::new(data))
    }

    /// The payload that holds a value that is shared already.
    pub fn from_arc(data: Arc<T>) -> (r: Self)
        ensures
            r == Data::Typed(data),
    {
        Data::Typed(data)
    }

    /// The payload that holds the bytes of a value.
    pub fn from_bytes(bytes: Vec<u8>) -> (r: Self)
        ensures
            r matches Data::<T>::Bytes(held) && *held == bytes,
    {
        Data::Bytes(Arc::new(bytes))
    }
}

impl<T: ZFData> Data<T> {
    /// The payload as bytes: the bytes it holds, or what its value writes
    /// itself to. A value that cannot be written makes this fail with the
    /// error of the writing.
    pub fn try_as_bytes(&self) -> (r: ZFResult<Arc<Vec<u8>>>)
        ensures
            self matches Data::Bytes(bytes) ==> r == Ok::<Arc<Vec<u8>>, ZFError>(*bytes),
            self matches Data::Typed(value) ==> match r {
                Ok(bytes) => call_ensures(
                    T::try_serialize,
                    (&**value,),
                    Ok::<Vec<u8>, ZFError>(*bytes),
                ),
                Err(e) => call_ensures(T::try_serialize, (&**value,), Err::<Vec<u8>, ZFError>(e)),
            },
    {
        match self {
            Data::Bytes(bytes) => Ok(share(bytes)),
            Data::Typed(value) => {
                match value.try_serialize() {
                    Ok(bytes) => Ok(Arc::new(bytes)),
                    Err(e) => Err(e),
                }
            },
        }
    }
}

impl<T: Deserializable> Data<T> {
    /// The value of the payload. A payload that holds bytes reads its value
    /// from them, once, and holds the value from then on. Bytes that cannot
    /// be read make this fail with the error of the reading, and the payload
    /// stays as it was.
    pub fn try_get(&mut self) -> (r: ZFResult<Arc<T>>)
        ensures
            *old(self) matches Data::Typed(value) ==> r == Ok::<Arc<T>, ZFError>(value)
                && *final(self) == *old(self),
            *old(self) matches Data::Bytes(bytes) ==> match r {
                Ok(value) => *final(self) == Data::Typed(value) && exists|held: &[u8]|
                    held@ == bytes@ && #[trigger] call_ensures(
                        T::try_deserialize,
                        (held,),
                        Ok::<T, ZFError>(*value),
                    ),
                Err(e) => *final(self) == *old(self) && exists|held: &[u8]|
                    held@ == bytes@ && #[trigger] call_ensures(
                        T::try_deserialize,
                        (held,),
                        Err::<T, ZFError>(e),
                    ),
            },
    {
        let bytes = match &*self {
            Data::Typed(value) => {
                return Ok(share(value));
            },
            Data::Bytes(bytes) => share(bytes),
        };
        let held = bytes.as_slice();
        match T::try_deserialize(held) {
            Ok(value) => {
                let value = Arc::new(value);
                *self = Data::Typed(share(&value));
                assert(held@ == bytes@ && call_ensures(
                    T::try_deserialize,
                    (held,),
                    Ok::<T, ZFError>(*value),
                ));
                assert(exists|h: &[u8]|
                    h@ == bytes@ && #[trigger] call_ensures(
                        T::try_deserialize,
                        (h,),
                        Ok::<T, ZFError>(*value),
                    ));
                Ok(value)
            },
            Err(e) => {
                assert(held@ == bytes@ && call_ensures(
                    T::try_deserialize,
                    (held,),
                    Err::<T, ZFError>(e),
                ));
                assert(exists|h: &[u8]|
                    h@ == bytes@ && #[trigger] call_ensures(
                        T::try_deserialize,
                        (h,),
                        Err::<T, ZFError>(e),
                    ));
                Err(e)
            },
        }
    }
}

} // verus!
