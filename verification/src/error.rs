use vstd::prelude::*;

verus! {

/// Why a request could not be answered.
#[derive(Debug, Clone, Copy, PartialEq, Eq, Structural)]
pub enum Error {
    /// The command line is not one the engine understands.
    Usage,
    /// A page lies outside the file.
    Io,
    /// The bytes are not a well-formed database structure.
    Decode,
    /// The schema does not describe what the query names.
    Schema,
    /// The file or the query is outside the supported subset.
    Unsupported,
}

/// `head` put before what `tail` holds; the error of `tail` where it has one.
pub open spec fn prepend<T>(head: Seq<T>, tail: Result<Seq<T>, Error>) -> Result<Seq<T>, Error> {
    match tail {
        Ok(t) => Ok(head + t),
        Err(e) => Err(e),
    }
}

/// The result `r` stands for what `s` says: the same error, or a value whose
/// model is the one that `s` holds.
pub open spec fn yields<T: DeepView>(r: Result<T, Error>, s: Result<T::V, Error>) -> bool {
    match s {
        Ok(v) => r matches Ok(x) && x.deep_view() == v,
        Err(e) => r matches Err(f) && f == e,
    }
}

/// As [`yields`], for a value whose model is its view.
pub open spec fn gives<T: View>(r: Result<T, Error>, s: Result<T::V, Error>) -> bool {
    match s {
        Ok(v) => r matches Ok(x) && x@ == v,
        Err(e) => r matches Err(f) && f == e,
    }
}

} // verus!
