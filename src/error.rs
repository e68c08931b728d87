use vstd::prelude::*;

verus! {

/// The closed set of error codes that the kernel reports.
#[derive(Clone, Copy, Debug, PartialEq, Eq, Structural)]
pub enum Code {
    NoError,
    NoPerm,
    InvArgs,
    Exists,
    NoSpace,
    NoCredits,
    ActivityGone,
    NotSup,
    Timeout,
    RecvGone,
    InvEp,
    /// A code that a remote party reported and that has no name here.
    Other(u32),
}

/// The wire value of a code.
pub open spec fn code_raw(c: Code) -> u32 {
    match c {
        Code::NoError => 0,
        Code::NoPerm => 1,
        Code::InvArgs => 2,
        Code::Exists => 3,
        Code::NoSpace => 4,
        Code::NoCredits => 5,
        Code::ActivityGone => 6,
        Code::NotSup => 7,
        Code::Timeout => 8,
        Code::RecvGone => 9,
        Code::InvEp => 10,
        Code::Other(v) => v,
    }
}

/// The code that a wire value stands for.
pub open spec fn code_of(v: u32) -> Code {
    if v == 0 {
        Code::NoError
    } else if v == 1 {
        Code::NoPerm
    } else if v == 2 {
        Code::InvArgs
    } else if v == 3 {
        Code::Exists
    } else if v == 4 {
        Code::NoSpace
    } else if v == 5 {
        Code::NoCredits
    } else if v == 6 {
        Code::ActivityGone
    } else if v == 7 {
        Code::NotSup
    } else if v == 8 {
        Code::Timeout
    } else if v == 9 {
        Code::RecvGone
    } else if v == 10 {
        Code::InvEp
    } else {
        Code::Other(v)
    }
}

impl Code {
    /// Converts a wire value into a code.
    pub fn from_raw(v: u32) -> (r: Code)
        ensures
            r == code_of(v),
            code_raw(r) == v,
    {
        if v == 0 {
            Code::NoError
        } else if v == 1 {
            Code::NoPerm
        } else if v == 2 {
            Code::InvArgs
        } else if v == 3 {
            Code::Exists
        } else if v == 4 {
            Code::NoSpace
        } else if v == 5 {
            Code::NoCredits
        } else if v == 6 {
            Code::ActivityGone
        } else if v == 7 {
            Code::NotSup
        } else if v == 8 {
            Code::Timeout
        } else if v == 9 {
            Code::RecvGone
        } else if v == 10 {
            Code::InvEp
        } else {
            Code::Other(v)
        }
    }

    /// Returns the wire value of this code.
    pub fn raw(self) -> (r: u32)
        ensures
            r == code_raw(self),
    {
        match self {
            Code::NoError => 0,
            Code::NoPerm => 1,
            Code::InvArgs => 2,
            Code::Exists => 3,
            Code::NoSpace => 4,
            Code::NoCredits => 5,
            Code::ActivityGone => 6,
            Code::NotSup => 7,
            Code::Timeout => 8,
            Code::RecvGone => 9,
            Code::InvEp => 10,
            Code::Other(v) => v,
        }
    }
}

/// An error, carrying its code.
#[derive(Clone, Copy, Debug, PartialEq, Eq, Structural)]
pub struct Error {
    pub code: Code,
}

impl Error {
    pub fn new(code: Code) -> (r: Error)
        ensures
            r.code == code,
    {
        Error { code }
    }

    pub fn code(&self) -> (r: Code)
        ensures
            r == self.code,
    {
        self.code
    }
}

} // verus!
