//! One entry of the manifest: a file or a symbolic link.

pub mod errors;
pub mod format;
pub mod probe;

use vstd::prelude::*;
use vstd::bytes::{spec_u64_from_le_bytes, spec_u64_to_le_bytes, u64_from_le_bytes, u64_to_le_bytes};
use vstd::slice::slice_subrange;
use vstd::utf8::encode_utf8;
use crate::shared::checksum::Checksum;
use crate::shared::constants::HASH_OUTPUT_LENGTH;
use crate::shared::functions::{absorbed, blake2_to_checksum, blake2b, Hasher};
use crate::shared::key_index::{key_of_text, text_key};
use crate::shared::text::to_chars;
use errors::EDElementParseError;
use format::{element_text, parse_element, parse_line, push_element};

verus! {

/// What tells a file from a symbolic link: the digest of the content of a
/// file, or the target of a link as it is stored in the link.
#[derive(Debug, Hash)]
pub enum EDVariantFields {
    File { checksum: Checksum },
    Link { target: String },
}

/// The mathematical value of `EDVariantFields`.
pub enum VariantView {
    File { checksum: Seq<u8> },
    Link { target: Seq<char> },
}

impl View for EDVariantFields {
    type V = VariantView;

    open spec fn view(&self) -> VariantView {
        match self {
            EDVariantFields::File { checksum } => VariantView::File { checksum: checksum@ },
            EDVariantFields::Link { target } => VariantView::Link { target: target@ },
        }
    }
}

impl EDVariantFields {
    pub fn is_link(&self) -> (r: bool)
        ensures
            r == (self@ is Link),
    {
        match self {
            EDVariantFields::Link { target: _ } => true,
            EDVariantFields::File { checksum: _ } => false,
        }
    }
}

impl Clone for EDVariantFields {
    fn clone(&self) -> (r: EDVariantFields)
        ensures
            r@ == self@,
    {
        match self {
            EDVariantFields::File { checksum } => EDVariantFields::File { checksum: *checksum },
            EDVariantFields::Link { target } => EDVariantFields::Link { target: target.clone() },
        }
    }
}

impl PartialEq for EDVariantFields {
    fn eq(&self, other: &EDVariantFields) -> (r: bool) {
        match self {
            EDVariantFields::File { checksum: a } => match other {
                EDVariantFields::File { checksum: b } => *a == *b,
                EDVariantFields::Link { target: _ } => false,
            },
            EDVariantFields::Link { target: a } => match other {
                EDVariantFields::File { checksum: _ } => false,
                EDVariantFields::Link { target: b } => *a == *b,
            },
        }
    }
}

impl vstd::std_specs::cmp::PartialEqSpecImpl for EDVariantFields {
    open spec fn obeys_eq_spec() -> bool {
        true
    }

    open spec fn eq_spec(&self, other: &EDVariantFields) -> bool {
        self@ == other@
    }
}

impl Eq for EDVariantFields {}

/// The mathematical value of an entry.
pub struct ElementView {
    pub path: Seq<char>,
    pub modified_time: u64,
    pub variant: VariantView,
}

/// The bytes by which a variant enters a digest: the content digest of a
/// file, the UTF-8 bytes of the target of a link.
pub open spec fn variant_bytes(variant: VariantView) -> Seq<u8> {
    match variant {
        VariantView::File { checksum } => checksum,
        VariantView::Link { target } => encode_utf8(target),
    }
}

/// The bytes that bind an entry: the UTF-8 bytes of a path, the modification
/// time as eight little-endian bytes, then the bytes of the variant.
pub open spec fn digest_input(path: Seq<char>, modified_time: u64, variant: VariantView) -> Seq<
    u8,
> {
    encode_utf8(path) + spec_u64_to_le_bytes(modified_time) + variant_bytes(variant)
}

/// The digest that an entry carries: Blake2b over its path, modification
/// time and variant.
pub open spec fn element_digest(e: ElementView) -> Seq<u8> {
    blake2b(digest_input(e.path, e.modified_time, e.variant))
}

/// A key for a digest: its first eight bytes.
pub open spec fn digest_key(digest: Seq<u8>) -> u64 {
    spec_u64_from_le_bytes(digest.subrange(0, 8))
}

/// A key for what entries share: the same content has the same key.
pub open spec fn variant_key(shared: VariantView) -> u64 {
    match shared {
        VariantView::File { checksum } => digest_key(checksum),
        VariantView::Link { target } => text_key(target),
    }
}

/// The key of what an entry holds.
pub fn key_of_variant(shared: &EDVariantFields) -> (r: u64)
    ensures
        r == variant_key(shared@),
{
    match shared {
        EDVariantFields::File { checksum } => {
            proof {
                checksum.lemma_len();
            }
            u64_from_le_bytes(slice_subrange(checksum.as_ref().as_slice(), 0, 8))
        },
        EDVariantFields::Link { target } => key_of_text(target.as_str()),
    }
}

/// Feeds a hasher what `digest_input` describes.
pub fn hash_fields(
    hasher: &mut Hasher,
    path: &str,
    modified_time: u64,
    variant_fields: &EDVariantFields,
)
    ensures
        absorbed(*final(hasher)) == absorbed(*old(hasher)) + digest_input(
            path@,
            modified_time,
            variant_fields@,
        ),
{
    hasher.update(path.as_bytes());
    let time_bytes = u64_to_le_bytes(modified_time);
    hasher.update(time_bytes.as_slice());
    match variant_fields {
        EDVariantFields::File { checksum } => hasher.update(checksum.as_ref().as_slice()),
        EDVariantFields::Link { target } => hasher.update(target.as_str().as_bytes()),
    }
    assert(absorbed(*hasher) =~= absorbed(*old(hasher)) + digest_input(
        path@,
        modified_time,
        variant_fields@,
    ));
}

/// An entry of the manifest. The path is that of a file or of a symbolic
/// link, `modified_time` the time of its last modification in whole seconds
/// since the epoch. The entry carries a digest of all this, so that no two
/// entries that differ in anything share one.
#[derive(Debug)]
pub struct EDElement {
    path: String,
    modified_time: u64,
    variant_fields: EDVariantFields,
    element_hash: Checksum,
}

impl View for EDElement {
    type V = ElementView;

    closed spec fn view(&self) -> ElementView {
        ElementView {
            path: self.path@,
            modified_time: self.modified_time,
            variant: self.variant_fields@,
        }
    }
}

impl EDElement {
    #[verifier::type_invariant]
    spec fn digest_is_bound(&self) -> bool {
        self.element_hash@ == element_digest(self@)
    }

    /// The digest of the given fields.
    fn calculate_hash(path: &str, modified_time: u64, variant_fields: &EDVariantFields) -> (r:
        Checksum)
        ensures
            r@ == blake2b(digest_input(path@, modified_time, variant_fields@)),
    {
        let mut hasher = Hasher::new();
        hash_fields(&mut hasher, path, modified_time, variant_fields);
        blake2_to_checksum(hasher)
    }

    /// Creates an entry from the given fields and binds them by its digest.
    pub fn from_internal(path: String, modified_time: u64, variant_fields: EDVariantFields) -> (r:
        EDElement)
        ensures
            r@ == (ElementView { path: path@, modified_time, variant: variant_fields@ }),
    {
        let element_hash = EDElement::calculate_hash(
            path.as_str(),
            modified_time,
            &variant_fields,
        );
        EDElement { path, modified_time, variant_fields, element_hash }
    }

    /// The digest of the whole entry, not that of the content of the file.
    pub fn get_hash(&self) -> (r: &Checksum)
        ensures
            r@ == element_digest(self@),
    {
        proof {
            use_type_invariant(self);
        }
        &self.element_hash
    }

    /// The path of the entry.
    pub fn get_path(&self) -> (r: &str)
        ensures
            r@ == self@.path,
    {
        self.path.as_str()
    }

    /// The path of the entry; the entry is given up.
    pub fn take_path(self) -> (r: String)
        ensures
            r@ == self@.path,
    {
        self.path
    }

    /// Gives the entry another path and binds it anew; for the
    /// synchronisation of two lists only.
    pub fn update_path(&mut self, new_path: String)
        ensures
            final(self)@ == (ElementView { path: new_path@, ..old(self)@ }),
    {
        let variant_fields = self.variant_fields.clone();
        *self = EDElement::from_internal(new_path, self.modified_time, variant_fields);
    }

    /// Parses a line of the manifest into an entry. The digest of the entry
    /// is computed from what was read; none is taken from the line.
    pub fn from_str(value: &str) -> (r: Result<EDElement, EDElementParseError>)
        ensures
            match parse_element(value@) {
                Ok(e) => r matches Ok(element) && element@ == e,
                Err(failure) => r matches Err(err) && err@ == failure,
            },
    {
        let line = to_chars(value);
        match parse_line(&line) {
            Ok((path, modified_time, variant_fields)) => Ok(
                EDElement::from_internal(path, modified_time, variant_fields),
            ),
            Err(err) => Err(err),
        }
    }

    /// The line that holds the entry in the manifest.
    pub fn to_string(&self) -> (r: String)
        ensures
            r@ == element_text(self@),
    {
        let mut line = String::new();
        push_element(&mut line, self.path.as_str(), self.modified_time, &self.variant_fields);
        line
    }

    /// The digest of the content of a file entry has the width of a digest.
    pub proof fn lemma_content_digest_len(&self)
        ensures
            self@.variant matches VariantView::File { checksum } ==> checksum.len()
                == HASH_OUTPUT_LENGTH,
    {
        match self.variant_fields {
            EDVariantFields::File { checksum } => {
                checksum.lemma_len();
            },
            EDVariantFields::Link { target } => {},
        }
    }

    pub fn get_modified_time(&self) -> (r: u64)
        ensures
            r == self@.modified_time,
    {
        self.modified_time
    }

    pub fn get_variant(&self) -> (r: &EDVariantFields)
        ensures
            r@ == self@.variant,
    {
        &self.variant_fields
    }
}

impl TryFrom<&str> for EDElement {
    type Error = EDElementParseError;

    /// Parses a line of the manifest into an entry, as `from_str` does.
    fn try_from(value: &str) -> (r: Result<EDElement, EDElementParseError>)
        ensures
            match parse_element(value@) {
                Ok(e) => r matches Ok(element) && element@ == e,
                Err(failure) => r matches Err(err) && err@ == failure,
            },
    {
        EDElement::from_str(value)
    }
}

impl vstd::std_specs::convert::TryFromSpecImpl<&str> for EDElement {
    open spec fn obeys_try_from_spec() -> bool {
        false
    }

    open spec fn try_from_spec(value: &str) -> Result<EDElement, EDElementParseError> {
        arbitrary()
    }
}

impl Clone for EDElement {
    fn clone(&self) -> (r: EDElement)
        ensures
            r@ == self@,
    {
        proof {
            use_type_invariant(self);
        }
        EDElement {
            path: self.path.clone(),
            modified_time: self.modified_time,
            variant_fields: self.variant_fields.clone(),
            element_hash: self.element_hash,
        }
    }
}

} // verus!
