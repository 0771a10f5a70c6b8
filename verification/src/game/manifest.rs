//! The list of block textures: which files hold the textures of which kind
//! of block.
//!
//! The list is a JSON array. Each of its entries is an array that starts
//! with the name of a kind of block; the paths of its texture files follow:
//! one for all faces; or three, for the top, the bottom and the sides; or
//! six, for the top, the bottom, the left, the right, the front and the
//! back.

use crate::game::chunk::BlockId;
use crate::game::texture::{BlockSides, BlockTextures, TextureId};
use vstd::prelude::*;
use vstd::string::StringSliceAdditionalSpecFns;

verus! {

/// An entry of the list as it was read: `None` where the entry is no array,
/// and else its items, each `None` where the item is no string.
pub type RawEntry = Option<Vec<Option<String>>>;

/// The index that stands for "no texture".
pub const NO_TEXTURE: u32 = 0xffff_ffff;

/// What `json::parse` makes of `text`, as far as a list of block textures
/// goes: `None` where `text` is no JSON document; `Some(None)` where the
/// document is no array; and else the entries of the array.
pub uninterp spec fn manifest_document(text: Seq<char>) -> Option<Option<Vec<RawEntry>>>;

/// Number of digits in a row from which on a text is not read as a list
/// of block textures.
pub const DIGIT_RUN_LIMIT: usize = 32768;

/// Whether `byte` is one of the ten digits.
pub open spec fn is_digit(byte: u8) -> bool {
    48 <= byte <= 57
}

/// The number of digits in a row that end just before place `n` of
/// `bytes`.
pub open spec fn digit_run(bytes: Seq<u8>, n: int) -> int
    decreases n,
{
    if n <= 0 || !is_digit(bytes[n - 1]) {
        0
    } else {
        digit_run(bytes, n - 1) + 1
    }
}

/// Whether `bytes` holds fewer than `limit` digits in a row, wherever one
/// looks.
pub open spec fn digit_runs_below(bytes: Seq<u8>, limit: int) -> bool {
    forall|n: int| 0 <= n <= bytes.len() ==> #[trigger] digit_run(bytes, n) < limit
}

/// Whether `text` holds fewer than [`DIGIT_RUN_LIMIT`] digits in a row,
/// wherever one looks.
pub fn has_short_digit_runs(text: &str) -> (r: bool)
    ensures
        r == digit_runs_below(text.spec_bytes(), DIGIT_RUN_LIMIT as int),
{
    let bytes = text.as_bytes();
    let mut run: usize = 0;
    let mut i: usize = 0;
    while i < bytes.len()
        invariant
            i <= bytes.len(),
            bytes@ == text.spec_bytes(),
            run == digit_run(bytes@, i as int),
            forall|n: int| 0 <= n <= i ==> #[trigger] digit_run(bytes@, n) < DIGIT_RUN_LIMIT,
        decreases bytes.len() - i,
    {
        if 48 <= bytes[i] && bytes[i] <= 57 {
            run += 1;
        } else {
            run = 0;
        }
        i += 1;
        assert(run == digit_run(bytes@, i as int));
        if run >= DIGIT_RUN_LIMIT {
            return false;
        }
    }
    true
}

/// `json::parse`, and the arrays and strings of what it returns two levels
/// down: the result is [`manifest_document`] of the text. Stated for texts
/// with fewer than [`DIGIT_RUN_LIMIT`] digits in a row: the parser counts
/// the decimal places of a number in 16 bits, one for each digit that it
/// reads behind the point, and on a longer run of digits that count can
/// overflow.
#[verifier::external_body]
fn parse_document(text: &str) -> (r: Option<Option<Vec<RawEntry>>>)
    requires
        digit_runs_below(text.spec_bytes(), DIGIT_RUN_LIMIT as int),
    ensures
        r == manifest_document(text@),
{
    let items = |entry: &json::JsonValue| match entry {
        json::JsonValue::Array(items) => Some(
            items.iter().map(|item| item.as_str().map(str::to_owned)).collect(),
        ),
        _ => None,
    };
    match json::parse(text) {
        Ok(json::JsonValue::Array(entries)) => Some(Some(entries.iter().map(items).collect())),
        Ok(_) => Some(None),
        Err(_) => None,
    }
}

/// An entry of the list: the name of a kind of block, and the paths of its
/// texture files.
pub struct ManifestEntry {
    pub name: String,
    pub textures: Vec<String>,
}

/// Why a list of block textures was refused.
#[derive(Debug, Clone, Copy, PartialEq, Eq, Structural)]
pub enum ManifestError {
    /// The text holds [`DIGIT_RUN_LIMIT`] digits in a row or more.
    NumberTooLong,
    /// The text is no JSON document.
    NotJson,
    /// The document is no array.
    NotAnArray,
    /// An entry is no array.
    EntryNotAnArray,
    /// An entry does not start with a string.
    MissingName,
    /// An item behind the name is no string.
    PathNotAString,
    /// An entry names two, four, five or more than six textures.
    WrongTextureCount,
}

/// Whether an entry may name `count` textures.
pub open spec fn texture_count_allowed(count: int) -> bool {
    count == 0 || count == 1 || count == 3 || count == 6
}

/// What is wrong with an entry, if anything. The first item has to be a
/// string; where more follow, the second has to be a string, then their
/// number has to be allowed, then the others have to be strings.
pub open spec fn entry_error(raw: RawEntry) -> Option<ManifestError> {
    match raw {
        None => Some(ManifestError::EntryNotAnArray),
        Some(items) => if items@.len() == 0 || items@[0].is_none() {
            Some(ManifestError::MissingName)
        } else if items@.len() == 1 {
            None
        } else if items@[1].is_none() {
            Some(ManifestError::PathNotAString)
        } else if !texture_count_allowed(items@.len() - 1) {
            Some(ManifestError::WrongTextureCount)
        } else if exists|i: int| 1 <= i < items@.len() && (#[trigger] items@[i]).is_none() {
            Some(ManifestError::PathNotAString)
        } else {
            None
        },
    }
}

/// The text of an item, where it is a string.
pub open spec fn item_text(item: Option<String>) -> Option<Seq<char>> {
    match item {
        Some(text) => Some(text@),
        None => None,
    }
}

/// The text of the item behind the name that names texture `i`.
pub open spec fn path_item(items: Seq<Option<String>>, i: int) -> Option<Seq<char>> {
    item_text(items[i + 1])
}

/// Whether `entry` holds what the items `items` of a sound entry say.
pub open spec fn entry_matches(entry: ManifestEntry, items: Seq<Option<String>>) -> bool {
    &&& item_text(items[0]) == Some(entry.name@)
    &&& entry.textures@.len() == items.len() - 1
    &&& forall|i: int|
        0 <= i < entry.textures@.len() ==> #[trigger] path_item(items, i) == Some(
            entry.textures@[i]@,
        )
}

/// Reads one entry.
pub fn read_entry(raw: &RawEntry) -> (r: Result<ManifestEntry, ManifestError>)
    ensures
        match r {
            Ok(entry) => entry_error(*raw).is_none() && entry_matches(entry, raw->0@),
            Err(error) => entry_error(*raw) == Some(error),
        },
{
    let items = match raw {
        Some(items) => items,
        None => {
            return Err(ManifestError::EntryNotAnArray);
        },
    };
    if items.len() == 0 {
        return Err(ManifestError::MissingName);
    }
    let name = match &items[0] {
        Some(name) => name.clone(),
        None => {
            return Err(ManifestError::MissingName);
        },
    };
    let mut textures: Vec<String> = Vec::new();
    if items.len() > 1 {
        if items[1].is_none() {
            return Err(ManifestError::PathNotAString);
        }
        let count: usize = items.len() - 1;
        if !(count == 1 || count == 3 || count == 6) {
            return Err(ManifestError::WrongTextureCount);
        }
        let mut i: usize = 1;
        while i < items.len()
            invariant
                1 <= i <= items.len(),
                *raw == Some(*items),
                items@[0].is_some(),
                items@[1].is_some(),
                texture_count_allowed(items@.len() - 1),
                textures@.len() == i - 1,
                forall|k: int| 1 <= k < i ==> (#[trigger] items@[k]).is_some(),
                forall|k: int|
                    0 <= k < textures@.len() ==> #[trigger] path_item(items@, k) == Some(
                        textures@[k]@,
                    ),
            decreases items.len() - i,
        {
            match &items[i] {
                Some(path) => {
                    textures.push(path.clone());
                },
                None => {
                    assert(items@[i as int].is_none());
                    return Err(ManifestError::PathNotAString);
                },
            }
            i += 1;
        }
    }
    Ok(ManifestEntry { name, textures })
}

/// Reads a list of block textures from its text. The list is refused where
/// the text holds [`DIGIT_RUN_LIMIT`] digits in a row or more, where it is
/// no JSON document or no array, and where an entry is wrong; the error is
/// then that of the first wrong entry.
pub fn parse_manifest(text: &str) -> (r: Result<Vec<ManifestEntry>, ManifestError>)
    ensures
        if !digit_runs_below(text.spec_bytes(), DIGIT_RUN_LIMIT as int) {
            r == Err::<Vec<ManifestEntry>, ManifestError>(ManifestError::NumberTooLong)
        } else {
            manifest_read(manifest_document(text@), r)
        },
{
    if !has_short_digit_runs(text) {
        return Err(ManifestError::NumberTooLong);
    }
    read_manifest(parse_document(text))
}

/// Whether `r` is what reading the document `document` gives.
pub open spec fn manifest_read(
    document: Option<Option<Vec<RawEntry>>>,
    r: Result<Vec<ManifestEntry>, ManifestError>,
) -> bool {
    match document {
        None => r == Err::<Vec<ManifestEntry>, ManifestError>(ManifestError::NotJson),
        Some(None) => r == Err::<Vec<ManifestEntry>, ManifestError>(ManifestError::NotAnArray),
        Some(Some(entries)) => match r {
            Ok(list) => {
                &&& list@.len() == entries@.len()
                &&& forall|i: int|
                    0 <= i < entries@.len() ==> entry_error(#[trigger] entries@[i]).is_none()
                        && entry_matches(list@[i], entries@[i]->0@)
            },
            Err(error) => exists|i: int|
                {
                    &&& 0 <= i < entries@.len()
                    &&& entry_error(#[trigger] entries@[i]) == Some(error)
                    &&& forall|k: int| 0 <= k < i ==> entry_error(#[trigger] entries@[k]).is_none()
                },
        },
    }
}

/// Reads a list of block textures from the document that its text holds.
/// The result is never [`ManifestError::NumberTooLong`].
pub fn read_manifest(document: Option<Option<Vec<RawEntry>>>) -> (r: Result<
    Vec<ManifestEntry>,
    ManifestError,
>)
    ensures
        manifest_read(document, r),
{
    let entries = match &document {
        None => {
            return Err(ManifestError::NotJson);
        },
        Some(None) => {
            return Err(ManifestError::NotAnArray);
        },
        Some(Some(entries)) => entries,
    };
    let mut list: Vec<ManifestEntry> = Vec::new();
    let mut i: usize = 0;
    while i < entries.len()
        invariant
            i <= entries.len(),
            document == Some(Some(*entries)),
            list@.len() == i,
            forall|k: int|
                0 <= k < i ==> entry_error(#[trigger] entries@[k]).is_none() && entry_matches(
                    list@[k],
                    entries@[k]->0@,
                ),
        decreases entries.len() - i,
    {
        match read_entry(&entries[i]) {
            Ok(entry) => {
                list.push(entry);
            },
            Err(error) => {
                assert(entry_error(entries@[i as int]) == Some(error));
                return Err(error);
            },
        }
        i += 1;
    }
    Ok(list)
}

/// The textures that `ids`, the texture indices of an entry's files, give
/// the faces of a block: none for no index; the same on all faces for one;
/// top, bottom and sides for three; and for six the top, the bottom, the
/// left, the right, the front and the back.
pub open spec fn spec_sides_of(ids: Seq<TextureId>) -> Option<BlockTextures> {
    if ids.len() == 0 {
        Some(
            BlockSides {
                top: TextureId(NO_TEXTURE),
                bottom: TextureId(NO_TEXTURE),
                left: TextureId(NO_TEXTURE),
                right: TextureId(NO_TEXTURE),
                front: TextureId(NO_TEXTURE),
                back: TextureId(NO_TEXTURE),
            },
        )
    } else if ids.len() == 1 {
        Some(
            BlockSides {
                top: ids[0],
                bottom: ids[0],
                left: ids[0],
                right: ids[0],
                front: ids[0],
                back: ids[0],
            },
        )
    } else if ids.len() == 3 {
        Some(
            BlockSides {
                top: ids[0],
                bottom: ids[1],
                left: ids[2],
                right: ids[2],
                front: ids[2],
                back: ids[2],
            },
        )
    } else if ids.len() == 6 {
        Some(
            BlockSides {
                top: ids[0],
                bottom: ids[1],
                left: ids[2],
                right: ids[3],
                front: ids[4],
                back: ids[5],
            },
        )
    } else {
        None
    }
}

/// The textures that the texture indices of an entry give the faces of a
/// block, where their number is allowed.
pub fn sides_of(ids: &Vec<TextureId>) -> (r: Option<BlockTextures>)
    ensures
        r == spec_sides_of(ids@),
{
    let none = TextureId(NO_TEXTURE);
    if ids.len() == 0 {
        Some(BlockSides::same(none))
    } else if ids.len() == 1 {
        Some(BlockSides::same(ids[0]))
    } else if ids.len() == 3 {
        Some(BlockSides::cylinder(ids[0], ids[1], ids[2]))
    } else if ids.len() == 6 {
        Some(
            BlockSides {
                top: ids[0],
                bottom: ids[1],
                left: ids[2],
                right: ids[3],
                front: ids[4],
                back: ids[5],
            },
        )
    } else {
        None
    }
}

/// The kind of block that a name of the list stands for, if any.
pub open spec fn spec_block_id_of_name(name: Seq<char>) -> Option<BlockId> {
    if name == "stone"@ {
        Some(BlockId::Stone)
    } else if name == "grass"@ {
        Some(BlockId::Grass)
    } else if name == "dirt"@ {
        Some(BlockId::Dirt)
    } else {
        None
    }
}

pub fn block_id_of_name(name: &String) -> (r: Option<BlockId>)
    ensures
        r == spec_block_id_of_name(name@),
{
    if *name == "stone".to_owned() {
        Some(BlockId::Stone)
    } else if *name == "grass".to_owned() {
        Some(BlockId::Grass)
    } else if *name == "dirt".to_owned() {
        Some(BlockId::Dirt)
    } else {
        None
    }
}

/// The texture files seen so far, each once; the place of a file in the
/// list is its texture index.
pub struct TexturePaths {
    paths: Vec<String>,
}

impl View for TexturePaths {
    type V = Seq<Seq<char>>;

    closed spec fn view(&self) -> Seq<Seq<char>> {
        self.paths@.map_values(|path: String| path@)
    }
}

impl TexturePaths {
    /// No path occurs twice, and every place is a texture index.
    pub open spec fn wf(&self) -> bool {
        &&& self@.no_duplicates()
        &&& self@.len() <= u32::MAX
    }

    pub fn new() -> (paths: Self)
        ensures
            paths.wf(),
            paths@ == Seq::<Seq<char>>::empty(),
    {
        let paths = Self { paths: Vec::new() };
        assert(paths@ =~= Seq::<Seq<char>>::empty());
        paths
    }

    pub fn len(&self) -> (n: usize)
        ensures
            n == self@.len(),
    {
        self.paths.len()
    }

    /// The path with the texture index `id`.
    pub fn path(&self, id: TextureId) -> (r: Option<&String>)
        ensures
            match r {
                Some(path) => id.0 < self@.len() && path@ == self@[id.0 as int],
                None => id.0 >= self@.len(),
            },
    {
        if (id.0 as usize) < self.paths.len() {
            Some(&self.paths[id.0 as usize])
        } else {
            None
        }
    }

    /// The texture index of `path`: its place in the list where it was seen
    /// before, and else the next place, which it takes. `None` where the
    /// list is full. The flag says whether the path is new.
    pub fn id_of(&mut self, path: &String) -> (r: Option<(TextureId, bool)>)
        requires
            old(self).wf(),
        ensures
            final(self).wf(),
            match r {
                Some((id, fresh)) => {
                    &&& id.0 < final(self)@.len()
                    &&& final(self)@[id.0 as int] == path@
                    &&& fresh == !old(self)@.contains(path@)
                    &&& final(self)@ == if fresh {
                        old(self)@.push(path@)
                    } else {
                        old(self)@
                    }
                },
                None => final(self)@ == old(self)@ && !old(self)@.contains(path@) && old(self)@.len()
                    == u32::MAX,
            },
    {
        let mut i: usize = 0;
        while i < self.paths.len()
            invariant
                i <= self.paths.len(),
                self.paths == old(self).paths,
                self.wf(),
                self.paths@.len() <= u32::MAX,
                forall|k: int| 0 <= k < i ==> self@[k] != path@,
            decreases self.paths.len() - i,
        {
            if self.paths[i] == *path {
                proof {
                    assert(self@[i as int] == path@);
                    assert(old(self)@ == self@);
                    assert(old(self)@.contains(path@));
                }
                return Some((TextureId(i as u32), false));
            }
            i += 1;
        }
        if self.paths.len() >= u32::MAX as usize {
            return None;
        }
        let id = TextureId(self.paths.len() as u32);
        self.paths.push(path.clone());
        proof {
            assert(self@ =~= old(self)@.push(path@));
        }
        Some((id, true))
    }
}

} // verus!
