//! Which encoding the names in an archive are read in.
//!
//! An archive's names are read either in the legacy codepage 437, which the
//! archive reader decodes by itself, or by one of the decoders of
//! `encoding_rs`. A decoder is held by its name, as a `Charset`.

use encoding_rs::Encoding;
use vstd::pervasive::unreached;
use vstd::prelude::*;
use vstd::string::StringSliceAdditionalSpecFns;
use vstd::utf8::encode_utf8;

verus! {

/// The longest name, in bytes, that an entry of a ZIP archive can have: the
/// archive stores the length in 16 bits.
pub const MAX_NAME_LEN: usize = 65535;

/// The name of the encoding that `Encoding::for_label` of `encoding_rs`
/// finds for a label, or `None` where it finds none.
pub uninterp spec fn label_encoding(label: Seq<u8>) -> Option<Seq<char>>;

/// What `Encoding::decode` of `encoding_rs` makes of `bytes` with the
/// encoding called `name`: the text, and whether something in the bytes was
/// malformed and has been replaced.
pub uninterp spec fn decoding(name: Seq<char>, bytes: Seq<u8>) -> (Seq<char>, bool);

/// What `str::to_lowercase` of the standard library makes of a text.
pub uninterp spec fn lowercased(text: Seq<char>) -> Seq<char>;

/// Whether `name` is the name of an encoding of `encoding_rs`: looked up as
/// a label, it leads to the encoding of that very name.
pub open spec fn is_encoding_name(name: Seq<char>) -> bool {
    label_encoding(encode_utf8(name)) == Some(name)
}

/// `str::to_lowercase` of the standard library. The contract only gives its
/// result a name.
pub assume_specification[ str::to_lowercase ](text: &str) -> (res: String)
    ensures
        res@ == lowercased(text@),
;

/// Looks a label up with `Encoding::for_label` and hands out the name of the
/// encoding found (`Encoding::name`). The contract gives the result its
/// name, and adds what the tables of `encoding_rs` show: the name of every
/// encoding is itself a label of that encoding.
#[verifier::external_body]
fn lookup_label(label: &[u8]) -> (res: Option<&'static str>)
    ensures
        match res {
            Some(name) => label_encoding(label@) == Some(name@) && is_encoding_name(name@),
            None => label_encoding(label@) is None,
        },
{
    Encoding::for_label(label).map(|encoding| encoding.name())
}

/// The name of `encoding_rs::UTF_8`, which is `UTF-8`.
#[verifier::external_body]
fn utf_8_name() -> (name: &'static str)
    ensures
        name@ == "UTF-8"@,
        is_encoding_name(name@),
{
    encoding_rs::UTF_8.name()
}

/// The name of `encoding_rs::SHIFT_JIS`, which is `Shift_JIS`.
#[verifier::external_body]
fn shift_jis_name() -> (name: &'static str)
    ensures
        name@ == "Shift_JIS"@,
        is_encoding_name(name@),
{
    encoding_rs::SHIFT_JIS.name()
}

/// Decodes `bytes` with `Encoding::decode`, on the encoding that
/// `Encoding::for_label` finds for `label`; `None` where it finds none.
/// `decode` sniffs a byte order mark, replaces what is malformed and says
/// whether it did. It panics where the size of its buffer overflows `usize`,
/// which takes a multiple of the input's length: the bound on `bytes` keeps
/// far from that.
#[verifier::external_body]
fn decode_labelled(label: &str, bytes: &[u8]) -> (res: Option<(String, bool)>)
    requires
        bytes@.len() <= MAX_NAME_LEN,
    ensures
        match res {
            Some(decoded) => label_encoding(label.spec_bytes()) matches Some(name) && (
                decoded.0@,
                decoded.1,
            ) == decoding(name, bytes@),
            None => label_encoding(label.spec_bytes()) is None,
        },
{
    Encoding::for_label(label.as_bytes()).map(
        |encoding|
            {
                let (text, _, malformed) = encoding.decode(bytes);
                (text.into_owned(), malformed)
            },
    )
}

/// A decoder of `encoding_rs`, held by the name of its encoding.
#[derive(Clone, Copy, Debug, PartialEq, Eq)]
pub struct Charset {
    name: &'static str,
}

impl View for Charset {
    type V = Seq<char>;

    /// The name of the encoding.
    closed spec fn view(&self) -> Seq<char> {
        self.name@
    }
}

impl Charset {
    #[verifier::type_invariant]
    spec fn names_an_encoding(&self) -> bool {
        is_encoding_name(self.name@)
    }

    /// The decoder for UTF-8.
    pub fn utf_8() -> (res: Charset)
        ensures
            res@ == "UTF-8"@,
    {
        Charset { name: utf_8_name() }
    }

    /// The decoder for Shift_JIS.
    pub fn shift_jis() -> (res: Charset)
        ensures
            res@ == "Shift_JIS"@,
    {
        Charset { name: shift_jis_name() }
    }

    /// The decoder that a label stands for, if it stands for one.
    pub fn for_label(label: &[u8]) -> (res: Option<Charset>)
        ensures
            match res {
                Some(charset) => label_encoding(label@) == Some(charset@),
                None => label_encoding(label@) is None,
            },
    {
        match lookup_label(label) {
            Some(name) => Some(Charset { name }),
            None => None,
        }
    }

    /// The name of the encoding.
    pub fn name(&self) -> (res: &'static str)
        ensures
            res@ == self@,
    {
        self.name
    }

    /// Decodes `bytes`: the text, with what was malformed replaced, and
    /// whether anything was malformed.
    pub fn decode(&self, bytes: &[u8]) -> (res: (String, bool))
        requires
            bytes@.len() <= MAX_NAME_LEN,
        ensures
            (res.0@, res.1) == decoding(self@, bytes@),
    {
        proof {
            use_type_invariant(self);
        }
        match decode_labelled(self.name, bytes) {
            Some(decoded) => decoded,
            // the name of an encoding is a label of it
            None => unreached(),
        }
    }
}

/// The encoding of an archive's names.
#[derive(Clone, Copy, Debug, PartialEq, Eq)]
pub enum ZipEncoding {
    /// Codepage 437, in which the archive reader has read the names already.
    Cp437,
    /// A decoder of `encoding_rs`.
    EncodingRs(Charset),
}

impl View for ZipEncoding {
    type V = Option<Seq<char>>;

    /// `None` for codepage 437, else the name of the decoder's encoding.
    open spec fn view(&self) -> Option<Seq<char>> {
        match self {
            ZipEncoding::Cp437 => None,
            ZipEncoding::EncodingRs(charset) => Some(charset@),
        }
    }
}

/// What the short names of the alias table stand for: `cp437` for codepage
/// 437 and `cp932` for Shift_JIS. The result is a `ZipEncoding` as its view
/// shows it, or `None` where `lowered` is no alias.
pub open spec fn alias_of(lowered: Seq<char>) -> Option<Option<Seq<char>>> {
    if lowered == "cp437"@ {
        Some(None)
    } else if lowered == "cp932"@ {
        Some(Some("Shift_JIS"@))
    } else {
        None
    }
}

/// What a name given by a user stands for: the alias that its lowercase form
/// is, or else the encoding that it is a label of.
pub open spec fn encoding_named(name: Seq<char>) -> Option<Option<Seq<char>>> {
    match alias_of(lowercased(name)) {
        Some(choice) => Some(choice),
        None => match label_encoding(encode_utf8(name)) {
            Some(found) => Some(Some(found)),
            None => None,
        },
    }
}

/// Looks `lowered`, a name in lowercase, up in the alias table.
pub fn alias_encoding(lowered: &str) -> (res: Option<ZipEncoding>)
    ensures
        match res {
            Some(encoding) => alias_of(lowered@) == Some(encoding@),
            None => alias_of(lowered@) is None,
        },
{
    let given = lowered.to_owned();
    if given == "cp437".to_owned() {
        Some(ZipEncoding::Cp437)
    } else if given == "cp932".to_owned() {
        Some(ZipEncoding::EncodingRs(Charset::shift_jis()))
    } else {
        None
    }
}

/// The encoding that a user means by `name`. The name is put in lowercase
/// and looked up in the alias table; where it is no alias, it is looked up,
/// as given, among the labels of `encoding_rs`. `None` where it is neither.
pub fn get_encoding(name: &str) -> (res: Option<ZipEncoding>)
    ensures
        match res {
            Some(encoding) => encoding_named(name@) == Some(encoding@),
            None => encoding_named(name@) is None,
        },
{
    let lowered = name.to_lowercase();
    match alias_encoding(lowered.as_str()) {
        Some(encoding) => Some(encoding),
        None => match Charset::for_label(name.as_bytes()) {
            Some(charset) => Some(ZipEncoding::EncodingRs(charset)),
            None => None,
        },
    }
}

} // verus!
