use vstd::prelude::*;

verus! {

/// Wraps an error value so that it can travel as an error of its own.
#[derive(Debug)]
pub struct ErrorWrapper<T> {
    wrapped: T,
}

impl<T> ErrorWrapper<T> {
    /// The wrapped value.
    pub closed spec fn inner(&self) -> T {
        self.wrapped
    }

    pub fn new(wrapped: T) -> (r: Self)
        ensures
            r.inner() == wrapped,
    {
        ErrorWrapper { wrapped }
    }

    pub fn wrapped(&self) -> (r: &T)
        ensures
            *r == self.inner(),
    {
        &self.wrapped
    }

    pub fn into_inner(self) -> (r: T)
        ensures
            r == self.inner(),
    {
        self.wrapped
    }
}

/// Values whose error part can be put into an [`ErrorWrapper`].
pub trait WrappableError: Sized {
    type Wrapped;

    /// `w` is `self` with its error part wrapped.
    spec fn wraps(&self, w: Self::Wrapped) -> bool;

    fn wrap_error(self) -> (r: Self::Wrapped)
        ensures
            self.wraps(r),
    ;
}

impl WrappableError for String {
    type Wrapped = ErrorWrapper<String>;

    open spec fn wraps(&self, w: ErrorWrapper<String>) -> bool {
        w.inner() == *self
    }

    fn wrap_error(self) -> (r: ErrorWrapper<String>) {
        ErrorWrapper { wrapped: self }
    }
}

impl<U, T> WrappableError for Result<U, T> {
    type Wrapped = Result<U, ErrorWrapper<T>>;

    open spec fn wraps(&self, w: Result<U, ErrorWrapper<T>>) -> bool {
        match *self {
            Ok(u) => w == Ok::<U, ErrorWrapper<T>>(u),
            Err(e) => w is Err && w->Err_0.inner() == e,
        }
    }

    fn wrap_error(self) -> (r: Result<U, ErrorWrapper<T>>) {
        match self {
            Ok(u) => Ok(u),
            Err(e) => Err(ErrorWrapper { wrapped: e }),
        }
    }
}

} // verus!
