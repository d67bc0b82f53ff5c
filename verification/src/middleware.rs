//! Markers for the text formats a file referenced from a configuration can
//! be written in, and a value read from such a file.

use vstd::prelude::*;
use std::marker::PhantomData;

verus! {

/// JSON.
#[derive(Clone, Copy, Debug, PartialEq, Eq, Structural)]
pub struct Json;

/// JSON5.
#[derive(Clone, Copy, Debug, PartialEq, Eq, Structural)]
pub struct Json5;

/// TOML.
#[derive(Clone, Copy, Debug, PartialEq, Eq, Structural)]
pub struct Toml;

/// YAML.
#[derive(Clone, Copy, Debug, PartialEq, Eq, Structural)]
pub struct Yaml;

/// RON.
#[derive(Clone, Copy, Debug, PartialEq, Eq, Structural)]
pub struct Ron;

/// Which of several formats, tried in order, reads a text: the first that
/// succeeds, or, when none does, every error in order.
pub fn first_success<T, E>(attempts: Vec<Result<T, E>>) -> (r: Result<T, Vec<E>>)
    ensures
        match r {
            Ok(t) => exists|i: int|
                0 <= i < attempts@.len() && #[trigger] attempts@[i] == Ok::<T, E>(t) && forall|
                    j: int,
                | 0 <= j < i ==> #[trigger] attempts@[j] is Err,
            Err(es) => es@.len() == attempts@.len() && forall|i: int|
                0 <= i < attempts@.len() ==> #[trigger] attempts@[i] == Err::<T, E>(es@[i]),
        },
{
    let ghost original = attempts@;
    assert(original.len() == attempts.len());
    let mut rest = attempts;
    let mut errors: Vec<E> = Vec::new();
    let mut i: usize = 0;
    while rest.len() > 0
        invariant
            original == attempts@,
            original.len() <= usize::MAX,
            original.len() == i + rest@.len(),
            rest@ == original.subrange(i as int, original.len() as int),
            errors@.len() == i,
            forall|j: int| 0 <= j < i ==> #[trigger] original[j] == Err::<T, E>(errors@[j]),
        decreases rest.len(),
    {
        let a = rest.remove(0);
        assert(a == original[i as int]);
        match a {
            Ok(t) => {
                assert(forall|j: int| 0 <= j < i ==> #[trigger] original[j] is Err);
                assert(original[i as int] == Ok::<T, E>(t));
                return Ok(t);
            },
            Err(e) => {
                errors.push(e);
            },
        }
        i = i + 1;
    }
    Err(errors)
}

/// A value read from a file that a configuration names, in format `F`.
#[derive(Debug)]
pub struct WithFile<F, T> {
    marker: PhantomData<F>,
    data: T,
}

impl<F, T> WithFile<F, T> {
    /// Wraps a value read from a file.
    pub fn new(data: T) -> (r: Self)
        ensures
            r.value() == data,
    {
        WithFile { marker: PhantomData, data }
    }

    /// The value.
    pub closed spec fn value(&self) -> T {
        self.data
    }

    /// The value, by reference.
    pub fn get(&self) -> (r: &T)
        ensures
            *r == self.value(),
    {
        &self.data
    }

    /// The value.
    pub fn into_inner(self) -> (r: T)
        ensures
            r == self.value(),
    {
        self.data
    }
}

impl<F, T: Clone> Clone for WithFile<F, T> {
    fn clone(&self) -> (r: Self) {
        WithFile { marker: PhantomData, data: self.data.clone() }
    }
}

} // verus!
