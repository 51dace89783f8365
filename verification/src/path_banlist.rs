//! The banlist: a trie of path prefixes that are kept out of the manifest.
//!
//! A path is banned when it starts with one of the prefixes of the banlist,
//! character by character: `lost+found` bans `lost+found_archive` too. A
//! prefix that is to ban a directory and nothing beside it ends in `/`.

pub mod errors;

use std::collections::HashMap;
use vstd::prelude::*;
use vstd::string::StringExecFns;
use vstd::std_specs::hash::group_hash_axioms;
use vstd::utf8::encode_utf8;
use crate::shared::constants::FIN_CHECKSUM_PREFIX;
use crate::shared::functions::{absorbed, blake2_to_string, blake2b, Hasher};
use crate::shared::hex_text::hex_upper;
use crate::shared::hex_text::lemma_hex_plain;
use crate::shared::lines::{
    join_lines, lemma_scan_lines_extend, lemma_split_joined, plain_line, split_lines,
};
use crate::shared::text::{prefix_split, texts, to_chars};
use errors::OpenPathBanlistError;

verus! {

broadcast use group_hash_axioms;

/// A node of the trie, reached by one character.
#[derive(Debug)]
pub enum CharMapper {
    /// A banned prefix ends here: everything below is banned.
    Terminator,
    /// The nodes that the next character leads to, by its code point.
    More(HashMap<u32, CharMapper>),
}

/// Whether a walk along `path` from `node` reaches a terminator.
pub open spec fn node_bans(node: CharMapper, path: Seq<char>) -> bool
    decreases path.len(), 1nat,
{
    match node {
        CharMapper::Terminator => true,
        CharMapper::More(children) => map_bans(children@, path),
    }
}

/// Whether a walk along `path` through `children` reaches a terminator.
pub open spec fn map_bans(children: Map<u32, CharMapper>, path: Seq<char>) -> bool
    decreases path.len(), 0nat,
{
    path.len() > 0 && children.contains_key(path[0] as u32) && node_bans(
        children[path[0] as u32],
        path.skip(1),
    )
}

/// A walk that reaches a terminator reaches it along every longer path.
pub proof fn lemma_node_bans_extends(node: CharMapper, path: Seq<char>, suffix: Seq<char>)
    requires
        node_bans(node, path),
    ensures
        node_bans(node, path + suffix),
    decreases path.len(),
{
    match node {
        CharMapper::Terminator => {},
        CharMapper::More(children) => {
            assert((path + suffix)[0] == path[0]);
            assert((path + suffix).skip(1) =~= path.skip(1) + suffix);
            lemma_node_bans_extends(children@[path[0] as u32], path.skip(1), suffix);
        },
    }
}

/// The paths with a non-empty prefix `line` are those that start with its
/// first character and go on with a path that has the rest as a prefix.
pub proof fn lemma_prefix_step(line: Seq<char>, path: Seq<char>)
    requires
        line.len() > 0,
    ensures
        line.is_prefix_of(path) <==> (path.len() > 0 && path[0] == line[0] && line.skip(
            1,
        ).is_prefix_of(path.skip(1))),
{
    if line.is_prefix_of(path) {
        assert(path.subrange(0, line.len() as int)[0] == line[0]);
        assert(line.skip(1) =~= path.skip(1).subrange(0, line.len() - 1)) by {
            assert forall|i: int| 0 <= i < line.len() - 1 implies line.skip(1)[i] == path.skip(
                1,
            ).subrange(0, line.len() - 1)[i] by {
                assert(path.subrange(0, line.len() as int)[i + 1] == line[i + 1]);
            }
        }
    }
    if path.len() > 0 && path[0] == line[0] && line.skip(1).is_prefix_of(path.skip(1)) {
        assert(line =~= path.subrange(0, line.len() as int)) by {
            assert forall|i: int| 0 <= i < line.len() implies line[i] == path.subrange(
                0,
                line.len() as int,
            )[i] by {
                if i > 0 {
                    assert(path.skip(1).subrange(0, line.len() - 1)[i - 1] == line.skip(1)[i
                        - 1]);
                }
            }
        }
    }
}

/// What a line of the banlist file is.
pub enum LineType<'a> {
    /// An empty line, or one that starts with `#`.
    Comment,
    /// A line that starts with `CHECKSUM = `: what follows it.
    Checksum(&'a str),
    /// Any other line: a banned prefix.
    BannedPath(&'a str),
}

/// The mathematical value of `LineType`.
pub enum LineKind {
    Comment,
    Checksum(Seq<char>),
    BannedPath(Seq<char>),
}

impl<'a> View for LineType<'a> {
    type V = LineKind;

    open spec fn view(&self) -> LineKind {
        match self {
            LineType::Comment => LineKind::Comment,
            LineType::Checksum(value) => LineKind::Checksum(value@),
            LineType::BannedPath(line) => LineKind::BannedPath(line@),
        }
    }
}

/// What a line of the banlist file is.
pub open spec fn line_kind(line: Seq<char>) -> LineKind {
    if line.len() == 0 || line[0] == '#' {
        LineKind::Comment
    } else if FIN_CHECKSUM_PREFIX@.is_prefix_of(line) {
        LineKind::Checksum(line.skip(FIN_CHECKSUM_PREFIX@.len() as int))
    } else {
        LineKind::BannedPath(line)
    }
}

/// The bytes under the checksum of a banlist file: its banned prefixes in
/// UTF-8, in the order of the file, with nothing between them.
pub open spec fn banned_bytes(lines: Seq<Seq<char>>) -> Seq<u8>
    decreases lines.len(),
{
    if lines.len() == 0 {
        Seq::empty()
    } else {
        match line_kind(lines.last()) {
            LineKind::BannedPath(line) => banned_bytes(lines.drop_last()) + encode_utf8(line),
            _ => banned_bytes(lines.drop_last()),
        }
    }
}

/// The checksums that a banlist file states, in the order of the file.
pub open spec fn stated_checksums(lines: Seq<Seq<char>>) -> Seq<Seq<char>>
    decreases lines.len(),
{
    if lines.len() == 0 {
        Seq::empty()
    } else {
        match line_kind(lines.last()) {
            LineKind::Checksum(value) => stated_checksums(lines.drop_last()).push(value),
            _ => stated_checksums(lines.drop_last()),
        }
    }
}

/// Whether `path` starts with a banned prefix of a banlist file.
pub open spec fn file_bans(lines: Seq<Seq<char>>, path: Seq<char>) -> bool {
    exists|i: int|
        0 <= i < lines.len() && #[trigger] line_kind(lines[i]) is BannedPath
            && lines[i].is_prefix_of(path)
}

/// The checksum that belongs in a banlist file, in hexadecimal.
pub open spec fn file_checksum(lines: Seq<Seq<char>>) -> Seq<char> {
    hex_upper(blake2b(banned_bytes(lines)))
}

/// The prefixes that a new banlist bans.
pub open spec fn default_prefixes() -> Seq<Seq<char>> {
    seq!["./lost+found"@, "./.Trash-1000/"@, "./file_hasher_files/"@]
}

/// The given prefixes in UTF-8, one after another.
pub open spec fn prefix_bytes(prefixes: Seq<Seq<char>>) -> Seq<u8>
    decreases prefixes.len(),
{
    if prefixes.len() == 0 {
        Seq::empty()
    } else {
        prefix_bytes(prefixes.drop_last()) + encode_utf8(prefixes.last())
    }
}

/// The text of a new banlist file.
pub open spec fn new_file_text() -> Seq<char> {
    join_lines(default_prefixes()) + FIN_CHECKSUM_PREFIX@ + hex_upper(
        blake2b(prefix_bytes(default_prefixes())),
    )
}

/// The lines of a new banlist file: the default prefixes, then the line of
/// their checksum.
pub proof fn lemma_new_file_lines()
    ensures
        split_lines(new_file_text()) == default_prefixes().push(
            FIN_CHECKSUM_PREFIX@ + hex_upper(blake2b(prefix_bytes(default_prefixes()))),
        ),
{
    reveal_strlit("./lost+found");
    reveal_strlit("./.Trash-1000/");
    reveal_strlit("./file_hasher_files/");
    reveal_strlit("CHECKSUM = ");
    let prefixes = default_prefixes();
    let digits = hex_upper(blake2b(prefix_bytes(prefixes)));
    let last = FIN_CHECKSUM_PREFIX@ + digits;
    lemma_hex_plain(blake2b(prefix_bytes(prefixes)));
    assert forall|i: int| 0 <= i < prefixes.len() implies plain_line(#[trigger] prefixes[i]) by {
        if i == 0 {
            assert(prefixes[0].last() == 'd');
        } else if i == 1 {
            assert(prefixes[1].last() == '/');
        } else {
            assert(prefixes[2].last() == '/');
        }
    }
    lemma_split_joined(prefixes);
    assert forall|i: int| 0 <= i < last.len() implies last[i] != '\n' by {
        if i >= FIN_CHECKSUM_PREFIX@.len() {
            assert(last[i] == digits[i - FIN_CHECKSUM_PREFIX@.len()]);
        }
    }
    lemma_scan_lines_extend(join_lines(prefixes), last);
    assert(Seq::<char>::empty() + last =~= last);
    assert(new_file_text() =~= join_lines(prefixes) + last);
}

/// A new banlist file opens: it states one checksum, that of its prefixes,
/// and bans what starts with one of the default prefixes.
pub proof fn lemma_new_file_opens()
    ensures
        stated_checksums(split_lines(new_file_text())) == seq![
            file_checksum(split_lines(new_file_text())),
        ],
        forall|path: Seq<char>|
            file_bans(split_lines(new_file_text()), path) <==> exists|i: int|
                0 <= i < 3 && (#[trigger] default_prefixes()[i]).is_prefix_of(path),
{
    lemma_new_file_lines();
    reveal_strlit("./lost+found");
    reveal_strlit("./.Trash-1000/");
    reveal_strlit("./file_hasher_files/");
    reveal_strlit("CHECKSUM = ");
    let prefixes = default_prefixes();
    let digits = hex_upper(blake2b(prefix_bytes(prefixes)));
    let last = FIN_CHECKSUM_PREFIX@ + digits;
    let lines = prefixes.push(last);
    let l3 = lines.drop_last();
    let l2 = l3.drop_last();
    let l1 = l2.drop_last();
    let l0 = l1.drop_last();
    assert(l3 =~= prefixes);
    assert(l0 =~= Seq::<Seq<char>>::empty());
    assert forall|i: int| 0 <= i < 3 implies line_kind(#[trigger] prefixes[i])
        == LineKind::BannedPath(prefixes[i]) by {
        let line = prefixes[i];
        assert(line[0] == '.');
        assert(line.subrange(0, FIN_CHECKSUM_PREFIX@.len() as int)[0] != FIN_CHECKSUM_PREFIX@[0]);
    }
    assert(line_kind(last) == LineKind::Checksum(digits)) by {
        assert(last[0] == 'C');
        assert(FIN_CHECKSUM_PREFIX@ =~= last.subrange(0, FIN_CHECKSUM_PREFIX@.len() as int));
        assert(last.skip(FIN_CHECKSUM_PREFIX@.len() as int) =~= digits);
    }
    assert(l1.last() == prefixes[0] && l2.last() == prefixes[1] && l3.last() == prefixes[2]);
    assert(lines.last() == last);
    assert(banned_bytes(l0) =~= prefix_bytes(l0));
    assert(banned_bytes(l1) == prefix_bytes(l1));
    assert(banned_bytes(l2) == prefix_bytes(l2));
    assert(banned_bytes(l3) == prefix_bytes(l3));
    assert(banned_bytes(lines) == prefix_bytes(prefixes));
    assert(stated_checksums(l0).len() == 0);
    assert(stated_checksums(l1).len() == 0);
    assert(stated_checksums(l2).len() == 0);
    assert(stated_checksums(l3).len() == 0);
    assert(stated_checksums(lines) =~= seq![digits]);
    assert forall|path: Seq<char>|
        file_bans(lines, path) <==> exists|i: int|
            0 <= i < 3 && (#[trigger] prefixes[i]).is_prefix_of(path) by {
        if file_bans(lines, path) {
            let k = choose|k: int|
                0 <= k < lines.len() && #[trigger] line_kind(lines[k]) is BannedPath
                    && lines[k].is_prefix_of(path);
            assert(k < 3);
            assert(lines[k] == prefixes[k]);
        }
        if exists|i: int| 0 <= i < 3 && (#[trigger] prefixes[i]).is_prefix_of(path) {
            let i = choose|i: int| 0 <= i < 3 && (#[trigger] prefixes[i]).is_prefix_of(path);
            assert(lines[i] == prefixes[i]);
            assert(line_kind(lines[i]) is BannedPath);
        }
    }
}

/// A line that is no banned prefix bans nothing.
proof fn lemma_file_bans_skips(seen: Seq<Seq<char>>, next: Seq<Seq<char>>, line: Seq<char>)
    requires
        next == seen.push(line),
        !(line_kind(line) is BannedPath),
    ensures
        forall|path: Seq<char>| file_bans(next, path) == file_bans(seen, path),
{
    assert forall|path: Seq<char>| file_bans(next, path) == file_bans(seen, path) by {
        if file_bans(seen, path) {
            let k = choose|k: int|
                0 <= k < seen.len() && #[trigger] line_kind(seen[k]) is BannedPath
                    && seen[k].is_prefix_of(path);
            assert(next[k] == seen[k]);
        }
        if file_bans(next, path) {
            let k = choose|k: int|
                0 <= k < next.len() && #[trigger] line_kind(next[k]) is BannedPath
                    && next[k].is_prefix_of(path);
            assert(seen[k] == next[k]);
        }
    }
}

/// A file states at least the checksums that its beginning states.
proof fn lemma_stated_checksums_grow(lines: Seq<Seq<char>>, n: int)
    requires
        0 <= n <= lines.len(),
    ensures
        stated_checksums(lines.take(n)).len() <= stated_checksums(lines).len(),
    decreases lines.len(),
{
    if n == lines.len() {
        assert(lines.take(n) =~= lines);
    } else {
        lemma_stated_checksums_grow(lines.drop_last(), n);
        assert(lines.drop_last().take(n) =~= lines.take(n));
    }
}

/// The set of paths that should not be hashed into the manifest.
#[derive(Debug)]
pub struct PathBanlist {
    banned_paths: HashMap<u32, CharMapper>,
}

impl PathBanlist {
    /// Whether `path` starts with a banned prefix.
    pub closed spec fn bans(&self, path: Seq<char>) -> bool {
        map_bans(self.banned_paths@, path)
    }

    /// Creates a banlist that bans nothing.
    pub fn new_dummy() -> (r: PathBanlist)
        ensures
            forall|path: Seq<char>| !r.bans(path),
    {
        PathBanlist { banned_paths: HashMap::new() }
    }

    /// Puts `line[pos..]` into the trie below `hashmap`. At the end of the
    /// line there is nothing to put in: the caller is handed the terminator
    /// that belongs at the character it came by. Where the walk meets a
    /// terminator, a shorter prefix already bans the line.
    fn insert_to_banlist(line: &Vec<char>, pos: usize, hashmap: &mut HashMap<u32, CharMapper>) -> (r:
        Option<CharMapper>)
        requires
            pos <= line.len(),
        ensures
            pos == line.len() ==> r == Some(CharMapper::Terminator) && final(hashmap)@ == old(
                hashmap,
            )@,
            pos < line.len() ==> r is None && forall|path: Seq<char>|
                map_bans(final(hashmap)@, path) == (map_bans(old(hashmap)@, path) || line@.skip(
                    pos as int,
                ).is_prefix_of(path)),
        decreases line.len() - pos,
    {
        if pos >= line.len() {
            return Some(CharMapper::Terminator);
        }
        let character = line[pos];
        let key: u32 = character as u32;
        let ghost rest = line@.skip(pos + 1);
        let ghost tail = line@.skip(pos as int);
        assert(tail.skip(1) =~= rest);
        let ghost before = hashmap@;
        let ghost grows = |mapper: CharMapper|
            forall|q: Seq<char>|
                node_bans(mapper, q) == ((before.contains_key(key) && node_bans(before[key], q))
                    || rest.is_prefix_of(q));
        proof {
            if pos + 1 == line.len() {
                assert forall|q: Seq<char>| rest.is_prefix_of(q) by {
                    assert(rest =~= q.subrange(0, 0));
                }
            }
        }
        let new_char_mapper = match hashmap.remove(&key) {
            Some(CharMapper::More(inner_hashmap)) => {
                let mut inner_hashmap = inner_hashmap;
                let ghost inner_before = inner_hashmap@;
                let mapper = match PathBanlist::insert_to_banlist(
                    line,
                    pos + 1,
                    &mut inner_hashmap,
                ) {
                    Some(char_mapper) => char_mapper,
                    None => CharMapper::More(inner_hashmap),
                };
                assert(grows(mapper)) by {
                    assert forall|q: Seq<char>|
                        node_bans(mapper, q) == (node_bans(before[key], q) || rest.is_prefix_of(
                            q,
                        )) by {
                        assert(node_bans(before[key], q) == map_bans(inner_before, q));
                    }
                }
                mapper
            },
            Some(CharMapper::Terminator) => {
                assert(grows(CharMapper::Terminator));
                CharMapper::Terminator
            },
            None => {
                let mut new_hashmap: HashMap<u32, CharMapper> = HashMap::new();
                let mapper = match PathBanlist::insert_to_banlist(
                    line,
                    pos + 1,
                    &mut new_hashmap,
                ) {
                    Some(char_mapper) => char_mapper,
                    None => CharMapper::More(new_hashmap),
                };
                assert(grows(mapper)) by {
                    assert forall|q: Seq<char>| node_bans(mapper, q) == rest.is_prefix_of(q) by {
                        assert(!map_bans(Map::<u32, CharMapper>::empty(), q));
                    }
                }
                mapper
            },
        };
        hashmap.insert(key, new_char_mapper);
        proof {
            assert(grows(new_char_mapper));
            assert forall|path: Seq<char>|
                map_bans(hashmap@, path) == (map_bans(before, path) || tail.is_prefix_of(
                    path,
                )) by {
                lemma_prefix_step(tail, path);
                if path.len() > 0 {
                    if path[0] as u32 == key {
                        vstd::utf8::char_u32_cast(path[0], key);
                        vstd::utf8::char_u32_cast(character, key);
                        assert(path[0] == character);
                        assert(node_bans(new_char_mapper, path.skip(1)) == ((before.contains_key(
                            key,
                        ) && node_bans(before[key], path.skip(1))) || rest.is_prefix_of(
                            path.skip(1),
                        )));
                    } else {
                        assert(path[0] != character);
                    }
                }
            }
        }
        None
    }

    /// Determines whether a line is a comment, a checksum or a banned path.
    pub fn identify_line(line: &str) -> (r: LineType<'_>)
        ensures
            r@ == line_kind(line@),
    {
        if line.is_empty() || line.get_char(0) == '#' {
            return LineType::Comment;
        }
        match prefix_split(FIN_CHECKSUM_PREFIX, line) {
            Some(checksum) => LineType::Checksum(checksum),
            None => LineType::BannedPath(line),
        }
    }

    /// Reads the lines of a banlist file. There must be exactly one line
    /// with a checksum, and it must hold the checksum of the banned
    /// prefixes; the errors carry the checksum that would be right.
    pub fn open(lines: &Vec<String>) -> (r: Result<PathBanlist, OpenPathBanlistError>)
        ensures
            match r {
                Ok(banlist) => stated_checksums(texts(lines@)) == seq![file_checksum(texts(lines@))]
                    && forall|path: Seq<char>|
                    banlist.bans(path) == file_bans(texts(lines@), path),
                Err(OpenPathBanlistError::DuplicateChecksum) => stated_checksums(
                    texts(lines@),
                ).len() >= 2,
                Err(OpenPathBanlistError::InvalidChecksum(expected)) => stated_checksums(
                    texts(lines@),
                ).len() == 1 && stated_checksums(texts(lines@))[0] != file_checksum(texts(lines@))
                    && expected@ == file_checksum(texts(lines@)),
                Err(OpenPathBanlistError::MissingChecksum(expected)) => stated_checksums(
                    texts(lines@),
                ).len() == 0 && expected@ == file_checksum(texts(lines@)),
                Err(_) => false,
            },
    {
        let mut hasher = Hasher::new();
        let mut file_checksum: Option<String> = None;
        let mut banlist = PathBanlist::new_dummy();
        let ghost all = texts(lines@);
        let mut i: usize = 0;
        assert(all.take(0) =~= Seq::<Seq<char>>::empty());
        while i < lines.len()
            invariant
                i <= lines.len(),
                all == texts(lines@),
                absorbed(hasher) == banned_bytes(all.take(i as int)),
                stated_checksums(all.take(i as int)).len() <= 1,
                match file_checksum {
                    Some(value) => stated_checksums(all.take(i as int)) == seq![value@],
                    None => stated_checksums(all.take(i as int)).len() == 0,
                },
                forall|path: Seq<char>|
                    banlist.bans(path) == file_bans(all.take(i as int), path),
            decreases lines.len() - i,
        {
            let ghost seen = all.take(i as int);
            let ghost next = all.take(i + 1);
            assert(next.drop_last() =~= seen);
            assert(next.last() == lines@[i as int]@);
            assert(next =~= seen.push(all[i as int]));
            match PathBanlist::identify_line(lines[i].as_str()) {
                LineType::BannedPath(line) => {
                    hasher.update(line.as_bytes());
                    banlist.insert(line);
                    proof {
                        assert forall|path: Seq<char>|
                            banlist.bans(path) == file_bans(next, path) by {
                            if file_bans(seen, path) {
                                let k = choose|k: int|
                                    0 <= k < seen.len() && #[trigger] line_kind(seen[k]) is BannedPath
                                        && seen[k].is_prefix_of(path);
                                assert(next[k] == seen[k]);
                            }
                            if line@.is_prefix_of(path) {
                                assert(next[i as int] == line@);
                            }
                            if file_bans(next, path) {
                                let k = choose|k: int|
                                    0 <= k < next.len() && #[trigger] line_kind(next[k]) is BannedPath
                                        && next[k].is_prefix_of(path);
                                if k < i {
                                    assert(seen[k] == next[k]);
                                }
                            }
                        }
                    }
                },
                LineType::Checksum(value) => {
                    if file_checksum.is_some() {
                        proof {
                            lemma_stated_checksums_grow(all, i + 1);
                            assert(all.take(all.len() as int) =~= all);
                        }
                        return Err(OpenPathBanlistError::DuplicateChecksum);
                    }
                    file_checksum = Some(value.to_owned());
                    proof {
                        lemma_file_bans_skips(seen, next, all[i as int]);
                    }
                },
                LineType::Comment => {
                    proof {
                        lemma_file_bans_skips(seen, next, all[i as int]);
                    }
                },
            }
            i = i + 1;
        }
        assert(all.take(i as int) =~= all);
        let generated_checksum = blake2_to_string(hasher);
        match file_checksum {
            Some(checksum) => {
                if generated_checksum == checksum {
                    Ok(banlist)
                } else {
                    Err(OpenPathBanlistError::InvalidChecksum(generated_checksum))
                }
            },
            None => Err(OpenPathBanlistError::MissingChecksum(generated_checksum)),
        }
    }

    /// The text of a new banlist file: the control files of the manifest,
    /// `lost+found` and the trash are banned, and the checksum of these
    /// prefixes stands in the last line, which no line feed ends.
    pub fn create() -> (r: String)
        ensures
            r@ == new_file_text(),
    {
        let mut hasher = Hasher::new();
        let mut text = String::new();
        let def_banned_list = ["./lost+found", "./.Trash-1000/", "./file_hasher_files/"];
        let mut i: usize = 0;
        proof {
            assert(default_prefixes().take(0) =~= Seq::<Seq<char>>::empty());
        }
        while i < 3
            invariant
                i <= 3,
                def_banned_list@.len() == 3,
                forall|k: int| 0 <= k < 3 ==> def_banned_list@[k]@ == default_prefixes()[k],
                absorbed(hasher) == prefix_bytes(default_prefixes().take(i as int)),
                text@ == join_lines(default_prefixes().take(i as int)),
            decreases 3 - i,
        {
            let string = def_banned_list[i];
            proof {
                let next = default_prefixes().take(i + 1);
                assert(next.drop_last() =~= default_prefixes().take(i as int));
                assert(next.last() == string@);
            }
            text.append(string);
            text.push('\n');
            hasher.update(string.as_bytes());
            proof {
                assert(text@ =~= join_lines(default_prefixes().take(i as int)) + string@ + seq![
                    '\n',
                ]);
            }
            i = i + 1;
        }
        assert(default_prefixes().take(3) =~= default_prefixes());
        text.append(FIN_CHECKSUM_PREFIX);
        text.append(blake2_to_string(hasher).as_str());
        text
    }

    /// Bans every path that starts with `line`; an empty line bans nothing.
    pub fn insert(&mut self, line: &str)
        ensures
            forall|path: Seq<char>|
                final(self).bans(path) == (old(self).bans(path) || (line@.len() > 0
                    && line@.is_prefix_of(path))),
    {
        let chars = to_chars(line);
        assert(chars@.skip(0) =~= chars@);
        let _ = PathBanlist::insert_to_banlist(&chars, 0, &mut self.banned_paths);
    }

    /// Tests whether the given path has any of its prefixes in the banlist.
    pub fn is_in_banlist(&self, path: &str) -> (r: bool)
        ensures
            r == self.bans(path@),
    {
        let mut hashmap = &self.banned_paths;
        assert(path@.skip(0) =~= path@);
        for character in it: path.chars()
            invariant
                it.seq() == path@,
                self.bans(path@) == map_bans(hashmap@, path@.skip(it.index() as int)),
        {
            let ghost here = path@.skip(it.index() as int);
            assert(here[0] == character);
            assert(here.skip(1) =~= path@.skip(it.index() + 1));
            let key: u32 = character as u32;
            match hashmap.get(&key) {
                Some(CharMapper::More(next_map)) => {
                    hashmap = next_map;
                },
                Some(CharMapper::Terminator) => {
                    return true;
                },
                None => {
                    return false;
                },
            }
        }
        false
    }

    /// Tests whether a folder is banned as a folder: whether its path,
    /// with a `/` at its end, starts with a banned prefix.
    pub fn is_folder_in_banlist(&self, folder: &str) -> (r: bool)
        ensures
            r == self.bans(folder@ + seq!['/']),
    {
        let mut path = folder.to_owned();
        path.push('/');
        assert(path@ =~= folder@ + seq!['/']);
        self.is_in_banlist(path.as_str())
    }

    /// Whatever is banned stays banned with anything appended.
    pub proof fn lemma_banned_prefix(&self, path: Seq<char>, suffix: Seq<char>)
        requires
            self.bans(path),
        ensures
            self.bans(path + suffix),
    {
        lemma_node_bans_extends(CharMapper::More(self.banned_paths), path, suffix);
    }
}

} // verus!
