//! Keys of the shared store, and the tokens that tie a key to the type of the
//! value stored under it.

use vstd::prelude::*;
use vstd::string::StrSliceExecFns;
use core::marker::PhantomData;

verus! {

/// The name of an entry in the store: an owned string or a string literal.
/// Two keys are the same key when they hold the same characters.
#[derive(Debug, Clone, Eq)]
pub enum KeyImpl {
    Owned(String),
    Static(&'static str),
}

impl View for KeyImpl {
    type V = Seq<char>;

    open spec fn view(&self) -> Seq<char> {
        match self {
            KeyImpl::Owned(value) => value@,
            KeyImpl::Static(value) => value@,
        }
    }
}

/// Whether two strings hold the same characters.
pub fn str_eq(a: &str, b: &str) -> (r: bool)
    ensures
        r == (a@ == b@),
{
    let n = a.unicode_len();
    if n != b.unicode_len() {
        return false;
    }
    let mut i: usize = 0;
    while i < n
        invariant
            n == a@.len(),
            n == b@.len(),
            i <= n,
            forall|j: int| 0 <= j < i ==> a@[j] == b@[j],
        decreases n - i,
    {
        if a.get_char(i) != b.get_char(i) {
            return false;
        }
        i = i + 1;
    }
    assert(a@ =~= b@);
    true
}

impl KeyImpl {
    /// The key as an owned string key.
    pub fn owned(self) -> (r: Self)
        ensures
            r is Owned,
            r@ == self@,
    {
        KeyImpl::Owned(self.into_string())
    }

    /// The characters of the key.
    pub fn as_str(&self) -> (r: &str)
        ensures
            r@ == self@,
    {
        match self {
            KeyImpl::Owned(value) => value.as_str(),
            KeyImpl::Static(value) => value,
        }
    }

    /// A copy of the key.
    pub fn copy_key(&self) -> (r: Self)
        ensures
            r@ == self@,
            r == *self,
    {
        match self {
            KeyImpl::Owned(value) => KeyImpl::Owned(value.clone()),
            KeyImpl::Static(value) => KeyImpl::Static(value),
        }
    }

    /// The key as a string.
    pub fn into_string(self) -> (r: String)
        ensures
            r@ == self@,
    {
        match self {
            KeyImpl::Owned(value) => value,
            KeyImpl::Static(value) => value.to_owned(),
        }
    }

    /// The key as a new string.
    pub fn to_string(&self) -> (r: String)
        ensures
            r@ == self@,
    {
        self.as_str().to_owned()
    }
}

impl PartialEq for KeyImpl {
    fn eq(&self, other: &Self) -> (r: bool) {
        str_eq(self.as_str(), other.as_str())
    }
}

impl vstd::std_specs::cmp::PartialEqSpecImpl for KeyImpl {
    open spec fn obeys_eq_spec() -> bool {
        true
    }

    open spec fn eq_spec(&self, other: &Self) -> bool {
        self@ == other@
    }
}

impl From<String> for KeyImpl {
    fn from(value: String) -> (r: Self) {
        KeyImpl::Owned(value)
    }
}

impl vstd::std_specs::convert::FromSpecImpl<String> for KeyImpl {
    open spec fn obeys_from_spec() -> bool {
        true
    }

    open spec fn from_spec(value: String) -> Self {
        KeyImpl::Owned(value)
    }
}

impl From<&'static str> for KeyImpl {
    fn from(value: &'static str) -> (r: Self) {
        KeyImpl::Static(value)
    }
}

impl vstd::std_specs::convert::FromSpecImpl<&'static str> for KeyImpl {
    open spec fn obeys_from_spec() -> bool {
        true
    }

    open spec fn from_spec(value: &'static str) -> Self {
        KeyImpl::Static(value)
    }
}

impl From<KeyImpl> for String {
    fn from(value: KeyImpl) -> (r: String) {
        value.into_string()
    }
}

impl vstd::std_specs::convert::FromSpecImpl<KeyImpl> for String {
    open spec fn obeys_from_spec() -> bool {
        false
    }

    open spec fn from_spec(value: KeyImpl) -> String {
        arbitrary()
    }
}

/// A key, typed by the value that is stored under it.
#[derive(Debug, PartialEq, Eq)]
pub struct Token<V>(pub KeyImpl, pub PhantomData<V>);

impl<V> Clone for Token<V> {
    fn clone(&self) -> (r: Self)
        ensures
            r.0 == self.0,
    {
        Token(self.0.copy_key(), PhantomData)
    }
}

impl<V> Token<V> {
    /// The token for a key.
    pub fn new<K: Into<KeyImpl>>(key: K) -> (t: Self)
        ensures
            call_ensures(K::into, (key,), t.0),
    {
        Token(key.into(), PhantomData)
    }

    /// The token for a key given as a string literal.
    pub fn new_const(key: &'static str) -> (t: Self)
        ensures
            t.0 == KeyImpl::Static(key),
            t.0@ == key@,
    {
        Token(KeyImpl::Static(key), PhantomData)
    }
}

} // verus!
