//! DNS names as this crate holds them: the text of a fully qualified name and
//! the case-folded text by which two names are told to be the same.

use crate::bytes::{bytes_eq, copy};
use crate::errors::BadDnsNameError;
use trust_dns_client::rr::Name;
use vstd::prelude::*;
use vstd::string::StringSliceAdditionalSpecFns;

verus! {

/// What the DNS library makes of a piece of text, as mathematical values.
pub struct NameParts {
    /// The name written out in UTF-8, with the final dot if it is fully
    /// qualified.
    pub text: Seq<u8>,
    /// The same after the name's ASCII letters are folded to lower case.
    pub folded: Seq<u8>,
    /// Whether the name is fully qualified.
    pub is_fqdn: bool,
}

/// What the DNS library makes of a piece of text.
#[derive(Debug)]
pub struct ParsedName {
    /// The name written out in UTF-8.
    pub text: Vec<u8>,
    /// The same after the name's ASCII letters are folded to lower case.
    pub folded: Vec<u8>,
    /// Whether the name is fully qualified.
    pub is_fqdn: bool,
}

impl View for ParsedName {
    type V = NameParts;

    open spec fn view(&self) -> NameParts {
        NameParts { text: self.text@, folded: self.folded@, is_fqdn: self.is_fqdn }
    }
}

/// Whether a text ends with the dot that stands for the root.
pub open spec fn spec_rooted(text: Seq<u8>) -> bool {
    text.len() > 0 && text.last() == 46u8
}

/// The name that `trust_dns_client::rr::Name::from_utf8` reads from the text
/// with these UTF-8 bytes, or `None` where it reads none (the bytes are not
/// UTF-8, or the text is no DNS name).
pub uninterp spec fn spec_parse_name(text: Seq<u8>) -> Option<NameParts>;

/// The name that `trust_dns_client::rr::Name::append_name` makes of the name
/// read from the text with these UTF-8 bytes by appending the root name to
/// it, or `None` where there is no such name.
pub uninterp spec fn spec_append_root(text: Seq<u8>) -> Option<NameParts>;

/// Calls `trust_dns_client::rr::Name::from_utf8` on the text and hands back
/// what the name holds: `to_utf8()`, `to_lowercase().to_utf8()` and
/// `is_fqdn()`. The contract gives that outcome its name, and says one
/// thing of it: `to_utf8` ends the text of a fully qualified name with a
/// dot.
#[verifier::external_body]
fn parse_name(text: &[u8]) -> (r: Option<ParsedName>)
    ensures
        r matches Some(p) ==> spec_parse_name(text@) == Some(p@) && (p.is_fqdn ==> spec_rooted(
            p.text@,
        )),
        r is None ==> spec_parse_name(text@) is None,
{
    let name = Name::from_utf8(std::str::from_utf8(text).ok()?).ok()?;
    Some(
        ParsedName {
            text: name.to_utf8().into_bytes(),
            folded: name.to_lowercase().to_utf8().into_bytes(),
            is_fqdn: name.is_fqdn(),
        },
    )
}

/// Calls `trust_dns_client::rr::Name::append_name` to append the root name
/// (the name read from `"."`) to the name read from the text, and hands back
/// what the new name holds. `append_name` gives its result the other name's
/// mark of being fully qualified, and the root name bears that mark: so the
/// contract says that the result does too, and that its text ends with a
/// dot, as `to_utf8` writes such a name.
#[verifier::external_body]
fn append_root(text: &[u8]) -> (r: Option<ParsedName>)
    ensures
        r matches Some(p) ==> spec_append_root(text@) == Some(p@) && p.is_fqdn && spec_rooted(
            p.text@,
        ),
        r is None ==> spec_append_root(text@) is None,
{
    let name = Name::from_utf8(std::str::from_utf8(text).ok()?).ok()?;
    let name = name.append_name(&Name::from_utf8(".").ok()?).ok()?;
    Some(
        ParsedName {
            text: name.to_utf8().into_bytes(),
            folded: name.to_lowercase().to_utf8().into_bytes(),
            is_fqdn: name.is_fqdn(),
        },
    )
}

/// A DNS name as mathematical values.
pub struct DnsNameView {
    /// The name written out in UTF-8.
    pub text: Seq<u8>,
    /// The text with ASCII letters in lower case: two names are the same
    /// name when they agree here.
    pub folded: Seq<u8>,
}

/// A fully qualified DNS name.
#[derive(Debug)]
pub struct DnsName {
    pub(crate) text: Vec<u8>,
    pub(crate) folded: Vec<u8>,
}

impl View for DnsName {
    type V = DnsNameView;

    closed spec fn view(&self) -> DnsNameView {
        DnsNameView { text: self.text@, folded: self.folded@ }
    }
}

/// The fully qualified name that a piece of text stands for: the name read
/// from it, with the root appended where the text did not end in it.
pub open spec fn spec_into_fqdn(text: Seq<u8>) -> Option<DnsNameView> {
    match spec_parse_name(text) {
        None => None,
        Some(parsed) => if parsed.is_fqdn {
            Some(DnsNameView { text: parsed.text, folded: parsed.folded })
        } else {
            match spec_append_root(parsed.text) {
                None => None,
                Some(rooted) => Some(DnsNameView { text: rooted.text, folded: rooted.folded }),
            }
        },
    }
}

/// Whether a result is the one that `spec_into_fqdn` describes.
pub open spec fn is_fqdn_of(r: Result<DnsName, BadDnsNameError>, text: Seq<u8>) -> bool {
    match r {
        Ok(name) => spec_into_fqdn(text) == Some(name@),
        Err(_) => spec_into_fqdn(text) is None,
    }
}

impl DnsName {
    /// Whether two names are the same name: DNS names do not tell upper
    /// case from lower case.
    pub open spec fn spec_same(&self, other: &DnsName) -> bool {
        self@.folded == other@.folded
    }

    /// Reads a name from its UTF-8 text and makes it fully qualified: the
    /// text of the name ends with the root's dot.
    pub fn from_bytes(text: &[u8]) -> (r: Result<DnsName, BadDnsNameError>)
        ensures
            is_fqdn_of(r, text@),
            r matches Ok(name) ==> spec_rooted(name@.text),
    {
        match parse_name(text) {
            None => Err(BadDnsNameError),
            Some(parsed) => {
                if parsed.is_fqdn {
                    Ok(DnsName { text: parsed.text, folded: parsed.folded })
                } else {
                    match append_root(parsed.text.as_slice()) {
                        None => Err(BadDnsNameError),
                        Some(rooted) => Ok(DnsName { text: rooted.text, folded: rooted.folded }),
                    }
                }
            },
        }
    }

    /// The name written out in UTF-8, ending in a dot.
    pub fn text(&self) -> (r: &[u8])
        ensures
            r@ == self@.text,
    {
        self.text.as_slice()
    }

    /// The text by which the name is compared.
    pub fn folded(&self) -> (r: &[u8])
        ensures
            r@ == self@.folded,
    {
        self.folded.as_slice()
    }

    /// Whether two names are the same name.
    #[verifier::when_used_as_spec(spec_same)]
    pub fn same(&self, other: &DnsName) -> (r: bool)
        ensures
            r == self.spec_same(other),
    {
        bytes_eq(self.folded.as_slice(), other.folded.as_slice())
    }

    /// A copy of the name.
    pub fn duplicate(&self) -> (r: DnsName)
        ensures
            r@ == self@,
    {
        DnsName { text: copy(self.text.as_slice()), folded: copy(self.folded.as_slice()) }
    }
}

/// Text that can be read as a fully qualified DNS name.
pub trait IntoDnsName: Sized {
    /// The UTF-8 bytes of the text.
    spec fn spec_text(&self) -> Seq<u8>;

    /// Reads the name and appends the root where the text left it out.
    fn into_fqdn(self) -> (r: Result<DnsName, BadDnsNameError>)
        ensures
            is_fqdn_of(r, self.spec_text()),
            r matches Ok(name) ==> spec_rooted(name@.text),
    ;
}

impl<'a> IntoDnsName for &'a str {
    open spec fn spec_text(&self) -> Seq<u8> {
        self.spec_bytes()
    }

    fn into_fqdn(self) -> (r: Result<DnsName, BadDnsNameError>) {
        DnsName::from_bytes(self.as_bytes())
    }
}

impl IntoDnsName for String {
    open spec fn spec_text(&self) -> Seq<u8> {
        vstd::utf8::encode_utf8(self@)
    }

    fn into_fqdn(self) -> (r: Result<DnsName, BadDnsNameError>) {
        DnsName::from_bytes(self.as_str().as_bytes())
    }
}

impl<'a> IntoDnsName for &'a DnsName {
    open spec fn spec_text(&self) -> Seq<u8> {
        self@.text
    }

    fn into_fqdn(self) -> (r: Result<DnsName, BadDnsNameError>) {
        DnsName::from_bytes(self.text.as_slice())
    }
}

} // verus!
