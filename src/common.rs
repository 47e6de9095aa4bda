//! Value types shared by the operations, and the URL encoding of keys and values.
use vstd::prelude::*;
use vstd::utf8::encode_utf8;
use crate::text::{decimal, digit_char, push_char, push_decimal};

verus! {

/// Upper-case hexadecimal digit of a value below sixteen.
pub open spec fn hex_upper(d: nat) -> char {
    if d < 10 {
        digit_char(d)
    } else if d == 10 {
        'A'
    } else if d == 11 {
        'B'
    } else if d == 12 {
        'C'
    } else if d == 13 {
        'D'
    } else if d == 14 {
        'E'
    } else {
        'F'
    }
}

/// Bytes written as they are in a URL: ASCII letters, digits, `-` and `/`.
pub open spec fn keeps_byte(b: u8) -> bool {
    (48 <= b && b <= 57) || (65 <= b && b <= 90) || (97 <= b && b <= 122) || b == 45 || b == 47
}

pub open spec fn byte_text(b: u8) -> Seq<char> {
    if keeps_byte(b) {
        seq![b as char]
    } else {
        seq!['%', hex_upper((b / 16) as nat), hex_upper((b % 16) as nat)]
    }
}

pub open spec fn url_encoded_bytes(bs: Seq<u8>) -> Seq<char>
    decreases bs.len(),
{
    if bs.len() == 0 {
        seq![]
    } else {
        url_encoded_bytes(bs.drop_last()) + byte_text(bs.last())
    }
}

/// The percent-encoded form of `s`: each UTF-8 byte other than an ASCII
/// letter, digit, `-` or `/` is written as `%XX`.
pub open spec fn url_encoded(s: Seq<char>) -> Seq<char> {
    url_encoded_bytes(encode_utf8(s))
}

/// Relies on percent_encoding::percent_encode_byte: `%` and the byte's two
/// upper-case hexadecimal digits.
#[verifier::external_body]
fn percent_byte(b: u8) -> (r: &'static str)
    ensures
        r@ == seq!['%', hex_upper((b / 16) as nat), hex_upper((b % 16) as nat)],
{
    percent_encoding::percent_encode_byte(b)
}

/// Percent-encodes a key or a query value.
pub fn url_encode(input: &str) -> (r: String)
    ensures
        r@ == url_encoded(input@),
{
    let bytes = input.as_bytes();
    let mut out = String::new();
    let mut i: usize = 0;
    while i < bytes.len()
        invariant
            bytes@ == encode_utf8(input@),
            i <= bytes@.len(),
            out@ == url_encoded_bytes(bytes@.take(i as int)),
        decreases bytes@.len() - i,
    {
        let b = bytes[i];
        assert(bytes@.take(i + 1).drop_last() =~= bytes@.take(i as int));
        if (48 <= b && b <= 57) || (65 <= b && b <= 90) || (97 <= b && b <= 122) || b == 45 || b
            == 47 {
            push_char(&mut out, b as char);
        } else {
            out.append(percent_byte(b));
        }
        i = i + 1;
    }
    assert(bytes@.take(i as int) =~= bytes@);
    out
}

/// Characters allowed in a user-metadata key: ASCII letters, digits and `-`.
pub open spec fn is_metadata_key_char(c: char) -> bool {
    ('a' <= c && c <= 'z') || ('A' <= c && c <= 'Z') || ('0' <= c && c <= '9') || c == '-'
}

/// Whether a metadata key holds a character that is not allowed.
pub fn invalid_metadata_key(input: &str) -> (r: bool)
    ensures
        r <==> exists|i: int| 0 <= i < input@.len() && !is_metadata_key_char(#[trigger] input@[i]),
{
    let n = input.unicode_len();
    let mut i: usize = 0;
    while i < n
        invariant
            n == input@.len(),
            i <= n,
            forall|k: int| 0 <= k < i ==> is_metadata_key_char(#[trigger] input@[k]),
        decreases n - i,
    {
        let c = input.get_char(i);
        if !(('a' <= c && c <= 'z') || ('A' <= c && c <= 'Z') || ('0' <= c && c <= '9') || c
            == '-') {
            return true;
        }
        i = i + 1;
    }
    false
}

/// Access control of a bucket or an object.
#[derive(Debug, Clone, Copy, PartialEq, Eq, Structural)]
pub enum Acl {
    /// Objects only: inherit the bucket's ACL.
    Default,
    Private,
    PublicRead,
    PublicReadWrite,
}

impl Acl {
    pub open spec fn text(&self) -> Seq<char> {
        match self {
            Acl::Default => "default"@,
            Acl::Private => "private"@,
            Acl::PublicRead => "public-read"@,
            Acl::PublicReadWrite => "public-read-write"@,
        }
    }

    /// The wire name of the ACL.
    pub fn to_string(&self) -> (r: String)
        ensures
            r@ == self.text(),
    {
        match self {
            Acl::Default => String::from_str("default"),
            Acl::Private => String::from_str("private"),
            Acl::PublicRead => String::from_str("public-read"),
            Acl::PublicReadWrite => String::from_str("public-read-write"),
        }
    }
}

/// Storage class of a bucket or an object.
#[derive(Debug, Clone, Copy, PartialEq, Eq, Structural)]
pub enum StorageClass {
    Standard,
    IA,
    Archive,
    ColdArchive,
    DeepColdArchive,
}

impl StorageClass {
    pub open spec fn text(&self) -> Seq<char> {
        match self {
            StorageClass::Standard => "Standard"@,
            StorageClass::IA => "IA"@,
            StorageClass::Archive => "Archive"@,
            StorageClass::ColdArchive => "ColdArchive"@,
            StorageClass::DeepColdArchive => "DeepColdArchive"@,
        }
    }

    /// The wire name of the storage class.
    pub fn to_string(&self) -> (r: String)
        ensures
            r@ == self.text(),
    {
        match self {
            StorageClass::Standard => String::from_str("Standard"),
            StorageClass::IA => String::from_str("IA"),
            StorageClass::Archive => String::from_str("Archive"),
            StorageClass::ColdArchive => String::from_str("ColdArchive"),
            StorageClass::DeepColdArchive => String::from_str("DeepColdArchive"),
        }
    }
}

/// Redundancy of a bucket's data.
#[derive(Debug, Clone, Copy, PartialEq, Eq, Structural)]
pub enum DataRedundancyType {
    /// Locally redundant: several devices in one zone.
    LRS,
    /// Zone redundant: several zones of one region.
    ZRS,
}

impl DataRedundancyType {
    pub open spec fn text(&self) -> Seq<char> {
        match self {
            DataRedundancyType::LRS => "LRS"@,
            DataRedundancyType::ZRS => "ZRS"@,
        }
    }

    /// The wire name of the redundancy type.
    pub fn to_string(&self) -> (r: String)
        ensures
            r@ == self.text(),
    {
        match self {
            DataRedundancyType::LRS => String::from_str("LRS"),
            DataRedundancyType::ZRS => String::from_str("ZRS"),
        }
    }
}

/// Priority of restoring an archived object.
#[derive(Debug, Clone, Copy, PartialEq, Eq, Structural)]
pub enum RestoreTier {
    Expedited,
    Standard,
    Bulk,
}

impl RestoreTier {
    pub open spec fn text(&self) -> Seq<char> {
        match self {
            RestoreTier::Expedited => "Expedited"@,
            RestoreTier::Standard => "Standard"@,
            RestoreTier::Bulk => "Bulk"@,
        }
    }

    /// The wire name of the tier.
    pub fn to_string(&self) -> (r: String)
        ensures
            r@ == self.text(),
    {
        match self {
            RestoreTier::Expedited => String::from_str("Expedited"),
            RestoreTier::Standard => String::from_str("Standard"),
            RestoreTier::Bulk => String::from_str("Bulk"),
        }
    }
}

/// The `Cache-Control` value an object is served with.
#[derive(Debug, Clone, Copy, PartialEq, Eq, Structural)]
pub enum CacheControl {
    NoCache,
    NoStore,
    Public,
    Private,
    MaxAge(u32),
}

impl CacheControl {
    pub open spec fn text(&self) -> Seq<char> {
        match self {
            CacheControl::NoCache => "no-cache"@,
            CacheControl::NoStore => "no-store"@,
            CacheControl::Public => "public"@,
            CacheControl::Private => "private"@,
            CacheControl::MaxAge(v) => "max-age="@ + decimal(*v as nat),
        }
    }

    /// The header value.
    pub fn to_string(&self) -> (r: String)
        ensures
            r@ == self.text(),
    {
        match self {
            CacheControl::NoCache => String::from_str("no-cache"),
            CacheControl::NoStore => String::from_str("no-store"),
            CacheControl::Public => String::from_str("public"),
            CacheControl::Private => String::from_str("private"),
            CacheControl::MaxAge(v) => {
                let mut s = String::from_str("max-age=");
                push_decimal(&mut s, *v as u64);
                s
            },
        }
    }
}

/// The `Content-Disposition` value an object is served with.
#[derive(Debug, Clone, PartialEq, Eq)]
pub enum ContentDisposition {
    Inline,
    Attachment,
    /// An attachment saved under the given file name.
    AttachmentWithNewName(String),
}

impl ContentDisposition {
    pub open spec fn text(&self) -> Seq<char> {
        match self {
            ContentDisposition::Inline => "inline"@,
            ContentDisposition::Attachment => "attachment"@,
            ContentDisposition::AttachmentWithNewName(name) => {
                let enc = url_encoded(name@);
                "attachment;filename=\""@ + enc + "\";filename*=UTF-8''"@ + enc
            },
        }
    }

    /// The header value; a new file name is percent-encoded.
    pub fn to_string(&self) -> (r: String)
        ensures
            r@ == self.text(),
    {
        match self {
            ContentDisposition::Inline => String::from_str("inline"),
            ContentDisposition::Attachment => String::from_str("attachment"),
            ContentDisposition::AttachmentWithNewName(name) => {
                let enc = url_encode(name.as_str());
                let mut s = String::from_str("attachment;filename=\"");
                s.append(enc.as_str());
                s.append("\";filename*=UTF-8''");
                s.append(enc.as_str());
                s
            },
        }
    }
}

/// Owner of a bucket or an object.
#[derive(Debug, Clone, PartialEq, Eq)]
pub struct Owner {
    pub id: u64,
    pub display_name: String,
}

} // verus!
