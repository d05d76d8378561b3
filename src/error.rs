//! POSIX-style error values with the place where they were raised.

use vstd::prelude::*;

use crate::memory::paging::PagingError;

verus! {

/// POSIX errno values used by the hypervisor.
#[derive(Clone, Copy, Debug, PartialEq, Eq, Structural)]
pub enum HvErrorNum {
    EPERM,
    ENOENT,
    EIO,
    E2BIG,
    ENOMEM,
    EFAULT,
    EBUSY,
    EEXIST,
    ENODEV,
    EINVAL,
    ERANGE,
    ENOSYS,
}

/// The positive errno of each error number.
pub open spec fn errno_value(n: HvErrorNum) -> i32 {
    match n {
        HvErrorNum::EPERM => 1,
        HvErrorNum::ENOENT => 2,
        HvErrorNum::EIO => 5,
        HvErrorNum::E2BIG => 7,
        HvErrorNum::ENOMEM => 12,
        HvErrorNum::EFAULT => 14,
        HvErrorNum::EBUSY => 16,
        HvErrorNum::EEXIST => 17,
        HvErrorNum::ENODEV => 19,
        HvErrorNum::EINVAL => 22,
        HvErrorNum::ERANGE => 34,
        HvErrorNum::ENOSYS => 38,
    }
}

/// The human-readable text of each error number.
pub open spec fn errno_text(n: HvErrorNum) -> Seq<char> {
    match n {
        HvErrorNum::EPERM => "Operation not permitted"@,
        HvErrorNum::ENOENT => "No such file or directory"@,
        HvErrorNum::EIO => "I/O error"@,
        HvErrorNum::E2BIG => "Argument list too long"@,
        HvErrorNum::ENOMEM => "Out of memory"@,
        HvErrorNum::EFAULT => "Bad address"@,
        HvErrorNum::EBUSY => "Device or resource busy"@,
        HvErrorNum::EEXIST => "File exists"@,
        HvErrorNum::ENODEV => "No such device"@,
        HvErrorNum::EINVAL => "Invalid argument"@,
        HvErrorNum::ERANGE => "Math result not representable"@,
        HvErrorNum::ENOSYS => "Function not implemented"@,
    }
}

impl HvErrorNum {
    /// The errno as a positive number.
    pub fn value(&self) -> (r: i32)
        ensures
            r == errno_value(*self),
            r > 0,
    {
        match *self {
            HvErrorNum::EPERM => 1,
            HvErrorNum::ENOENT => 2,
            HvErrorNum::EIO => 5,
            HvErrorNum::E2BIG => 7,
            HvErrorNum::ENOMEM => 12,
            HvErrorNum::EFAULT => 14,
            HvErrorNum::EBUSY => 16,
            HvErrorNum::EEXIST => 17,
            HvErrorNum::ENODEV => 19,
            HvErrorNum::EINVAL => 22,
            HvErrorNum::ERANGE => 34,
            HvErrorNum::ENOSYS => 38,
        }
    }

    /// A short description of the error.
    pub fn as_str(&self) -> (r: &'static str)
        ensures
            r@ == errno_text(*self),
    {
        match *self {
            HvErrorNum::EPERM => "Operation not permitted",
            HvErrorNum::ENOENT => "No such file or directory",
            HvErrorNum::EIO => "I/O error",
            HvErrorNum::E2BIG => "Argument list too long",
            HvErrorNum::ENOMEM => "Out of memory",
            HvErrorNum::EFAULT => "Bad address",
            HvErrorNum::EBUSY => "Device or resource busy",
            HvErrorNum::EEXIST => "File exists",
            HvErrorNum::ENODEV => "No such device",
            HvErrorNum::EINVAL => "Invalid argument",
            HvErrorNum::ERANGE => "Math result not representable",
            HvErrorNum::ENOSYS => "Function not implemented",
        }
    }
}

/// The errno a paging failure is reported as.
pub open spec fn paging_errno(err: PagingError) -> HvErrorNum {
    match err {
        PagingError::NoMemory => HvErrorNum::ENOMEM,
        _ => HvErrorNum::EFAULT,
    }
}

/// An error value: the errno, where it was raised and an optional message.
#[derive(Debug)]
pub struct HvError {
    num: HvErrorNum,
    loc_line: u32,
    loc_col: u32,
    loc_file: &'static str,
    msg: Option<String>,
}

pub type HvResult<T = ()> = Result<T, HvError>;

impl HvError {
    /// The errno of this error.
    pub closed spec fn spec_num(&self) -> HvErrorNum {
        self.num
    }

    pub fn new(
        num: HvErrorNum,
        loc_file: &'static str,
        loc_line: u32,
        loc_col: u32,
        msg: Option<String>,
    ) -> (r: Self)
        ensures
            r.spec_num() == num,
    {
        HvError { num, loc_line, loc_col, loc_file, msg }
    }

    /// An error with the given errno and no location or message.
    pub fn from_num(num: HvErrorNum) -> (r: Self)
        ensures
            r.spec_num() == num,
    {
        HvError { num, loc_line: 0, loc_col: 0, loc_file: "", msg: None }
    }

    /// The error a paging failure is reported as: out of memory stays out
    /// of memory, every other failure is a bad address.
    pub fn from_paging(err: PagingError) -> (r: Self)
        ensures
            r.spec_num() == paging_errno(err),
    {
        match err {
            PagingError::NoMemory => HvError::from_num(HvErrorNum::ENOMEM),
            _ => HvError::from_num(HvErrorNum::EFAULT),
        }
    }

    /// The errno of this error.
    pub fn num(&self) -> (r: HvErrorNum)
        ensures
            r == self.spec_num(),
    {
        self.num
    }

    /// The value handed back to the loader: the negated errno.
    pub fn code(&self) -> (r: i32)
        ensures
            r == -errno_value(self.spec_num()),
            r < 0,
    {
        -self.num.value()
    }

    /// The source line where the error was raised.
    pub fn line(&self) -> u32 {
        self.loc_line
    }

    /// The source file where the error was raised.
    pub fn file(&self) -> &'static str {
        self.loc_file
    }

    /// The optional message of the error.
    pub fn message(&self) -> (r: Option<&String>)
    {
        self.msg.as_ref()
    }
}

} // verus!
