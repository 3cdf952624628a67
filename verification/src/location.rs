use vstd::prelude::*;

use crate::text::{decimal_digits, push_digits, string_append, string_push};

verus! {

/// Where something stands in a source file: the file, the line (`column`,
/// counted from one) and the position within the line (`row`).
#[derive(Debug)]
pub struct Location {
    file: String,
    row: usize,
    column: usize,
}

/// A location as plain values.
pub struct LocationView {
    pub file: Seq<char>,
    pub row: nat,
    pub column: nat,
}

impl View for Location {
    type V = LocationView;

    closed spec fn view(&self) -> LocationView {
        LocationView { file: self.file@, row: self.row as nat, column: self.column as nat }
    }
}

impl Clone for Location {
    fn clone(&self) -> (r: Self)
        ensures
            r@ == self@,
    {
        Location { file: self.file.clone(), row: self.row, column: self.column }
    }
}

impl Default for Location {
    fn default() -> (r: Self)
        ensures
            r@ == (LocationView { file: Seq::empty(), row: 0, column: 0 }),
    {
        Location { file: String::new(), row: 0, column: 0 }
    }
}

impl Location {
    pub fn new(row: usize, column: usize, file: String) -> (r: Location)
        ensures
            r@ == (LocationView { file: file@, row: row as nat, column: column as nat }),
    {
        Self { column, row, file }
    }

    pub fn row(&self) -> (r: usize)
        ensures
            r == self@.row,
    {
        self.row
    }

    pub fn column(&self) -> (r: usize)
        ensures
            r == self@.column,
    {
        self.column
    }

    pub fn file(&self) -> (r: &String)
        ensures
            r@ == self@.file,
    {
        &self.file
    }

    /// `file:column:row`, as messages print a location.
    pub fn describe(&self) -> (s: String)
        ensures
            s@ == self@.file + seq![':'] + decimal_digits(self@.column) + seq![':']
                + decimal_digits(self@.row),
    {
        let mut s = self.file.clone();
        string_push(&mut s, ':');
        push_digits(&mut s, self.column as u64, 10);
        string_push(&mut s, ':');
        push_digits(&mut s, self.row as u64, 10);
        s
    }
}

/// A value together with the place in the source it comes from.
#[derive(Debug)]
pub struct WithLocation<T> {
    pub value: T,
    pub location: Location,
}

impl<T: View> View for WithLocation<T> {
    type V = (T::V, LocationView);

    open spec fn view(&self) -> (T::V, LocationView) {
        (self.inner()@, self.place())
    }
}

impl<T> WithLocation<T> {
    /// The value.
    pub open spec fn inner(&self) -> T {
        self.value
    }

    /// Where the value comes from.
    pub open spec fn place(&self) -> LocationView {
        self.location@
    }

    pub fn new(value: T, location: Location) -> (r: WithLocation<T>)
        ensures
            r.inner() == value,
            r.place() == location@,
    {
        Self { value, location }
    }

    pub fn value(&self) -> (r: &T)
        ensures
            *r == self.inner(),
    {
        &self.value
    }

    pub fn value_mut(&mut self) -> (r: &mut T)
        ensures
            *r == old(self).inner(),
            final(self).inner() == *final(r),
            final(self).place() == old(self).place(),
    {
        &mut self.value
    }

    pub fn value_owned(self) -> (r: T)
        ensures
            r == self.inner(),
    {
        self.value
    }

    pub fn location(&self) -> (r: &Location)
        ensures
            r@ == self.place(),
    {
        &self.location
    }
}

impl<T> std::ops::Deref for WithLocation<T> {
    type Target = T;

    /// The value, so that a located value reads as the value itself.
    fn deref(&self) -> (r: &T)
        ensures
            *r == self.inner(),
    {
        self.value()
    }
}

} // verus!
