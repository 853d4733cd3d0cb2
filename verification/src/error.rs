//! The failures that the library reports.

use vstd::prelude::*;

verus! {

/// Why a request could not be built, a reply not decoded, or a transaction
/// not completed.
#[derive(Debug, Clone, PartialEq, Eq)]
pub enum Error {
    /// The encoder of fixed-layout records refused a record.
    Encode,
    /// Raw address bytes were neither 4 nor 16 long; holds their count.
    InvalidAddressLength(usize),
    /// A prefix length above 32 (IPv4) or 128 (IPv6); holds it.
    InvalidPrefixLength(u8),
    /// A buffer ended before a record, an attribute or a value was complete.
    Decode,
    /// A route's source and destination are of different address families.
    SrcDstFamilyMismatch,
    /// A route's gateway is of another address family than its source or
    /// destination.
    GatewayFamilyMismatch,
    /// A link lookup was answered with no link.
    NoLinkFound,
    /// A link lookup was answered with more than one link.
    MultipleLinksFound,
    /// A datagram came from a sender other than the kernel; holds its port id.
    WrongSender(u32),
    /// The kernel answered with a failure: the error number as it was sent
    /// (negative) and what followed it in the message.
    Netlink { errno: i32, context: Vec<u8> },
}

/// A failure as a value: what follows the error number of the kernel is
/// a sequence of bytes.
pub enum ErrorView {
    Encode,
    InvalidAddressLength(usize),
    InvalidPrefixLength(u8),
    Decode,
    SrcDstFamilyMismatch,
    GatewayFamilyMismatch,
    NoLinkFound,
    MultipleLinksFound,
    WrongSender(u32),
    Netlink { errno: i32, context: Seq<u8> },
}

impl View for Error {
    type V = ErrorView;

    open spec fn view(&self) -> ErrorView {
        match self {
            Error::Encode => ErrorView::Encode,
            Error::InvalidAddressLength(n) => ErrorView::InvalidAddressLength(*n),
            Error::InvalidPrefixLength(n) => ErrorView::InvalidPrefixLength(*n),
            Error::Decode => ErrorView::Decode,
            Error::SrcDstFamilyMismatch => ErrorView::SrcDstFamilyMismatch,
            Error::GatewayFamilyMismatch => ErrorView::GatewayFamilyMismatch,
            Error::NoLinkFound => ErrorView::NoLinkFound,
            Error::MultipleLinksFound => ErrorView::MultipleLinksFound,
            Error::WrongSender(p) => ErrorView::WrongSender(*p),
            Error::Netlink { errno, context } => ErrorView::Netlink {
                errno: *errno,
                context: context@,
            },
        }
    }
}

impl Error {
    /// What went wrong, in words. The numbers that a failure holds are not
    /// part of the words.
    pub fn message(&self) -> (s: &'static str)
        ensures
            s@ == match self {
                Error::Encode => "a record could not be encoded"@,
                Error::InvalidAddressLength(_) => "invalid address length"@,
                Error::InvalidPrefixLength(_) => "invalid prefix length"@,
                Error::Decode => "a buffer ended too early"@,
                Error::SrcDstFamilyMismatch => "src and dst address family mismatch"@,
                Error::GatewayFamilyMismatch => "gw, src and dst address family mismatch"@,
                Error::NoLinkFound => "no link found"@,
                Error::MultipleLinksFound => "multiple links found"@,
                Error::WrongSender(_) => "wrong sender pid"@,
                Error::Netlink { .. } => "the kernel reported an error"@,
            },
    {
        match self {
            Error::Encode => "a record could not be encoded",
            Error::InvalidAddressLength(_) => "invalid address length",
            Error::InvalidPrefixLength(_) => "invalid prefix length",
            Error::Decode => "a buffer ended too early",
            Error::SrcDstFamilyMismatch => "src and dst address family mismatch",
            Error::GatewayFamilyMismatch => "gw, src and dst address family mismatch",
            Error::NoLinkFound => "no link found",
            Error::MultipleLinksFound => "multiple links found",
            Error::WrongSender(_) => "wrong sender pid",
            Error::Netlink { .. } => "the kernel reported an error",
        }
    }
}

} // verus!
