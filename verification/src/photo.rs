//! Photo records: the supported-file test, the cached capture-timestamp
//! state read from an image's embedded metadata, the chronological
//! comparator, and the name transforms of a single record.

use vstd::prelude::*;
use core::cmp::Ordering;
use crate::name::{
    create_prefix, find_sub, spec_find, spec_prefixed_name, spec_reverted_name,
};

verus! {

/// The position of the last dot in a file name, if any.
pub open spec fn spec_last_dot(name: Seq<char>) -> Option<int>
    decreases name.len(),
{
    if name.len() == 0 {
        None
    } else if name.last() == '.' {
        Some(name.len() - 1)
    } else {
        spec_last_dot(name.drop_last())
    }
}

/// The extension of a file name: the part after the last dot. A name
/// without a dot has none, and so does a hidden file's name whose only dot
/// is its first character.
pub open spec fn spec_extension(name: Seq<char>) -> Option<Seq<char>> {
    match spec_last_dot(name) {
        Some(i) => if i == 0 {
            None
        } else {
            Some(name.skip(i + 1))
        },
        None => None,
    }
}

/// Case-insensitive match of one character against a lower-case ASCII
/// letter.
pub open spec fn ci_eq_char(a: char, b: char) -> bool {
    a == b || a as u32 + 32 == b as u32
}

/// Case-insensitive match of a sequence against a lower-case ASCII word.
pub open spec fn ci_eq(a: Seq<char>, b: Seq<char>) -> bool {
    a.len() == b.len() && forall|i: int| 0 <= i < a.len() ==> ci_eq_char(a[i], #[trigger] b[i])
}

/// The extensions of the supported photo formats, matched case-insensitively.
pub open spec fn spec_supported_ext(ext: Seq<char>) -> bool {
    ||| ci_eq(ext, "jpg"@)
    ||| ci_eq(ext, "jpeg"@)
    ||| ci_eq(ext, "heic"@)
    ||| ci_eq(ext, "heif"@)
}

/// Whether a file name carries one of the supported photo extensions.
pub open spec fn spec_is_supported_name(name: Seq<char>) -> bool {
    match spec_extension(name) {
        Some(ext) => spec_supported_ext(ext),
        None => false,
    }
}

fn eq_ci(s: &str, lower: &str) -> (r: bool)
    ensures
        r == ci_eq(s@, lower@),
{
    let slen = s.unicode_len();
    let llen = lower.unicode_len();
    if slen != llen {
        return false;
    }
    let mut i: usize = 0;
    while i < slen
        invariant
            i <= slen,
            slen == s@.len(),
            slen == lower@.len(),
            forall|k: int| 0 <= k < i ==> ci_eq_char(s@[k], #[trigger] lower@[k]),
        decreases slen - i,
    {
        let c1 = s.get_char(i);
        let c2 = lower.get_char(i);
        let same = c1 == c2 || (c1 as u32) as u64 + 32 == (c2 as u32) as u64;
        if !same {
            assert(!ci_eq_char(s@[i as int], lower@[i as int]));
            return false;
        }
        i += 1;
    }
    true
}

/// The cached outcome of reading a photo file's capture timestamp.
#[derive(Clone, Debug, PartialEq, Eq)]
pub enum ExifData {
    /// The file itself could not be opened or read.
    NoFile,
    /// The file was read, but its metadata container could not be parsed.
    NoExif,
    /// The container parsed, but holds no original capture timestamp.
    NoTimestamp,
    /// The display form of the original capture timestamp.
    Timestamp(String),
}

/// What `exif::Reader::read_from_container` followed by a lookup of the
/// original date/time tag yields on a given byte buffer: nothing when the
/// container does not parse, an empty inner value when the tag is absent,
/// and otherwise the tag's display form. Both are functions of the bytes
/// alone, so the outcome has a name rather than a transcription.
pub uninterp spec fn exif_datetime_of(bytes: Seq<u8>) -> Option<Option<Seq<char>>>;

/// Relies on `exif::Reader::read_from_container`, `Exif::get_field` and
/// `Field::display_value`: parsing an in-memory buffer, looking up the
/// original date/time tag of the primary image, and rendering it are
/// deterministic in the buffer's bytes; the result is named
/// `exif_datetime_of`.
#[verifier::external_body]
fn read_exif_datetime(bytes: &[u8]) -> (r: Option<Option<String>>)
    ensures
        r.deep_view() == exif_datetime_of(bytes@),
{
    let mut cursor = std::io::Cursor::new(bytes);
    match exif::Reader::new().read_from_container(&mut cursor) {
        Err(_) => None,
        Ok(data) => match data.get_field(exif::Tag::DateTimeOriginal, exif::In::PRIMARY) {
            None => Some(None),
            Some(field) => Some(Some(field.display_value().to_string())),
        },
    }
}

/// How a timestamp state reflects a raw read outcome.
pub open spec fn exif_state_matches(r: ExifData, outcome: Option<Option<Seq<char>>>) -> bool {
    match outcome {
        None => r == ExifData::NoExif,
        Some(None) => r == ExifData::NoTimestamp,
        Some(Some(t)) => match r {
            ExifData::Timestamp(s) => s@ == t,
            _ => false,
        },
    }
}

impl ExifData {
    /// Reads the original capture timestamp out of the raw bytes of an
    /// image file, recording why none is available when it is not.
    pub fn from_bytes(bytes: &[u8]) -> (r: ExifData)
        ensures
            exif_state_matches(r, exif_datetime_of(bytes@)),
    {
        match read_exif_datetime(bytes) {
            None => ExifData::NoExif,
            Some(None) => ExifData::NoTimestamp,
            Some(Some(s)) => ExifData::Timestamp(s),
        }
    }
}

/// Lexicographic comparison of two character sequences by code point. The
/// capture timestamps compare this way: their display form is a fixed-width
/// date/time string, so the lexical order is the chronological one.
pub open spec fn lex_cmp(a: Seq<char>, b: Seq<char>) -> Ordering
    decreases a.len(),
{
    if a.len() == 0 && b.len() == 0 {
        Ordering::Equal
    } else if a.len() == 0 {
        Ordering::Less
    } else if b.len() == 0 {
        Ordering::Greater
    } else if (a[0] as u32) < (b[0] as u32) {
        Ordering::Less
    } else if (a[0] as u32) > (b[0] as u32) {
        Ordering::Greater
    } else {
        lex_cmp(a.drop_first(), b.drop_first())
    }
}

/// The mirror image of an ordering.
pub open spec fn flip(o: Ordering) -> Ordering {
    match o {
        Ordering::Less => Ordering::Greater,
        Ordering::Equal => Ordering::Equal,
        Ordering::Greater => Ordering::Less,
    }
}

/// Swapping the arguments of the lexicographic comparison mirrors its
/// result.
pub proof fn lemma_lex_cmp_flip(a: Seq<char>, b: Seq<char>)
    ensures
        lex_cmp(b, a) == flip(lex_cmp(a, b)),
    decreases a.len(),
{
    if a.len() > 0 && b.len() > 0 && a[0] as u32 == b[0] as u32 {
        lemma_lex_cmp_flip(a.drop_first(), b.drop_first());
    }
}

fn lex_compare(a: &str, b: &str) -> (r: Ordering)
    ensures
        r == lex_cmp(a@, b@),
{
    let alen = a.unicode_len();
    let blen = b.unicode_len();
    let mut i: usize = 0;
    proof {
        assert(a@.skip(0) =~= a@);
        assert(b@.skip(0) =~= b@);
    }
    loop
        invariant
            i <= alen,
            i <= blen,
            alen == a@.len(),
            blen == b@.len(),
            lex_cmp(a@, b@) == lex_cmp(a@.skip(i as int), b@.skip(i as int)),
        decreases alen - i,
    {
        if i == alen && i == blen {
            return Ordering::Equal;
        }
        if i == alen {
            return Ordering::Less;
        }
        if i == blen {
            return Ordering::Greater;
        }
        let c1 = a.get_char(i);
        let c2 = b.get_char(i);
        if (c1 as u32) < (c2 as u32) {
            return Ordering::Less;
        }
        if (c1 as u32) > (c2 as u32) {
            return Ordering::Greater;
        }
        proof {
            assert(a@.skip(i as int).drop_first() =~= a@.skip(i + 1));
            assert(b@.skip(i as int).drop_first() =~= b@.skip(i + 1));
        }
        i += 1;
    }
}

/// One photo file under consideration: its current name and the cached
/// outcome of reading its capture timestamp. A record is built once per
/// qualifying directory entry and never mutated; once the file on disk is
/// renamed, the record no longer describes it.
#[derive(Clone, Debug, PartialEq, Eq)]
pub struct PhotoFile {
    /// The file's name, without its directory.
    pub name: String,
    /// The cached result of reading the capture timestamp.
    pub exif: ExifData,
}

/// The chronological comparator over two records. Two readable timestamps
/// compare lexically (equal to chronologically, the display form being a
/// fixed-width date/time string); a record with a timestamp sorts before a
/// parsed record without one; a parsed container sorts before one that did
/// not parse; and a record whose file could not be read at all compares
/// equal to everything, leaving the listing order to decide.
pub open spec fn spec_cmp(a: PhotoFile, b: PhotoFile) -> Ordering {
    match (a.exif, b.exif) {
        (ExifData::NoFile, _) => Ordering::Equal,
        (_, ExifData::NoFile) => Ordering::Equal,
        (ExifData::Timestamp(t1), ExifData::Timestamp(t2)) => lex_cmp(t1@, t2@),
        (ExifData::Timestamp(_), ExifData::NoTimestamp) => Ordering::Less,
        (ExifData::NoTimestamp, ExifData::Timestamp(_)) => Ordering::Greater,
        (ExifData::NoTimestamp, ExifData::NoTimestamp) => Ordering::Equal,
        (ExifData::NoExif, ExifData::NoExif) => Ordering::Equal,
        (ExifData::NoExif, _) => Ordering::Greater,
        (_, ExifData::NoExif) => Ordering::Less,
    }
}

/// Swapping the arguments of the comparator mirrors its result; in
/// particular two records never both sort strictly before each other.
pub proof fn lemma_cmp_flip(a: PhotoFile, b: PhotoFile)
    ensures
        spec_cmp(b, a) == flip(spec_cmp(a, b)),
{
    match (a.exif, b.exif) {
        (ExifData::Timestamp(t1), ExifData::Timestamp(t2)) => {
            lemma_lex_cmp_flip(t1@, t2@);
        },
        _ => {},
    }
}

impl PhotoFile {
    /// Builds the record for one qualifying directory entry.
    pub fn new(name: String, exif: ExifData) -> (r: PhotoFile)
        ensures
            r.name@ == name@,
            r.exif == exif,
    {
        PhotoFile { name, exif }
    }

    /// Whether a directory entry's file name is one the tool processes:
    /// its extension, case-insensitively, is one of the supported photo
    /// extensions. Whether the entry is a regular file at all is the
    /// directory lister's question, answered before a record is built.
    pub fn is_supported_file(name: &str) -> (r: bool)
        ensures
            r == spec_is_supported_name(name@),
    {
        let len = name.unicode_len();
        let mut j: usize = len;
        proof {
            assert(name@.subrange(0, len as int) =~= name@);
        }
        while j > 0
            invariant
                j <= len,
                len == name@.len(),
                spec_last_dot(name@) == spec_last_dot(name@.subrange(0, j as int)),
            decreases j,
        {
            let c = name.get_char(j - 1);
            proof {
                assert(name@.subrange(0, j as int).last() == name@[j - 1]);
            }
            if c == '.' {
                if j == 1 {
                    return false;
                }
                let ext = name.substring_char(j, len);
                proof {
                    assert(name@.subrange(j as int, len as int) =~= name@.skip(j as int));
                }
                return eq_ci(ext, "jpg") || eq_ci(ext, "jpeg") || eq_ci(ext, "heic") || eq_ci(
                    ext,
                    "heif",
                );
            }
            proof {
                assert(name@.subrange(0, j as int).drop_last() =~= name@.subrange(0, j - 1));
            }
            j -= 1;
        }
        false
    }

    /// The record's current file name.
    pub fn get_name(&self) -> (r: String)
        ensures
            r@ == self.name@,
    {
        self.name.clone()
    }

    /// The dry-run rename: the one-based sequence number for the zero-based
    /// `index`, zero-padded to `prefix_len` digits (never truncated), then
    /// the delimiter, then the current name. Pure: computing it changes
    /// nothing, and identical arguments give identical output.
    pub fn create_prefixed_name(&self, index: usize, prefix_len: usize, delim: &str) -> (r:
        String)
        requires
            index < usize::MAX,
        ensures
            r@ == spec_prefixed_name(self.name@, index as nat, prefix_len as nat, delim@),
    {
        let prefix = create_prefix(index + 1, prefix_len);
        let with_delim = prefix.concat(delim);
        let r = with_delim.concat(self.name.as_str());
        proof {
            assert(r@ =~= spec_prefixed_name(self.name@, index as nat, prefix_len as nat, delim@));
        }
        r
    }

    /// The name the file had before it was renamed: the remainder of the
    /// current name after the first occurrence of the delimiter, at a fixed
    /// offset of two characters (see `spec_reverted_name`), or nothing when
    /// the delimiter does not occur (the file is considered not previously
    /// renamed).
    pub fn create_reverted_name(&self, delim: &str) -> (r: Option<String>)
        requires
            spec_find(self.name@, delim@) matches Some(p) ==> p + 2 <= self.name@.len(),
        ensures
            match r {
                Some(s) => spec_reverted_name(self.name@, delim@) == Some(s@),
                None => spec_reverted_name(self.name@, delim@) is None,
            },
    {
        match find_sub(self.name.as_str(), delim) {
            Some(p) => {
                let len = self.name.as_str().unicode_len();
                let rest = self.name.as_str().substring_char(p + 2, len);
                proof {
                    assert(rest@ =~= self.name@.skip(p + 2));
                }
                Some(rest.to_owned())
            },
            None => None,
        }
    }

    /// The chronological comparator, on the cached timestamp states.
    pub fn cmp(&self, other: &PhotoFile) -> (r: Ordering)
        ensures
            r == spec_cmp(*self, *other),
    {
        match (&self.exif, &other.exif) {
            (ExifData::NoFile, _) => Ordering::Equal,
            (_, ExifData::NoFile) => Ordering::Equal,
            (ExifData::Timestamp(t1), ExifData::Timestamp(t2)) => lex_compare(
                t1.as_str(),
                t2.as_str(),
            ),
            (ExifData::Timestamp(_), ExifData::NoTimestamp) => Ordering::Less,
            (ExifData::NoTimestamp, ExifData::Timestamp(_)) => Ordering::Greater,
            (ExifData::NoTimestamp, ExifData::NoTimestamp) => Ordering::Equal,
            (ExifData::NoExif, ExifData::NoExif) => Ordering::Equal,
            (ExifData::NoExif, _) => Ordering::Greater,
            (_, ExifData::NoExif) => Ordering::Less,
        }
    }
}

} // verus!
