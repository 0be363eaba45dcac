//! The decisions of dumping a game's event scripts: which files hold which
//! events, which page to take, and what the output files are named.
use crate::decimal::{all_digits, nat_text, parse_u16, parse_u16_spec, push_u64};
use crate::text::{chars_of, push_char, push_str, string_of};
use crate::types::EventCommand;
use vstd::prelude::*;

verus! {

/// The map id named by a file stem `Map<digits>`: `Ok(None)` for other stems,
/// an error where the digits do not make a `u16`.
pub open spec fn map_id_spec(stem: Seq<char>) -> Result<Option<u16>, ()> {
    if stem.len() >= 3 && stem.subrange(0, 3) == "Map"@ {
        let rest = stem.subrange(3, stem.len() as int);
        if all_digits(rest) {
            match parse_u16_spec(rest) {
                Some(n) => Ok(Some(n)),
                None => Err(()),
            }
        } else {
            Ok(None)
        }
    } else {
        Ok(None)
    }
}

/// A map file's digits that do not make a map id.
#[derive(Debug, Clone, Copy, PartialEq, Eq)]
pub struct InvalidMapId;

/// Extracts the map number from a file stem; `None` where it is not a map.
pub fn extract_map_id(file_stem: &str) -> (r: Result<Option<u16>, InvalidMapId>)
    ensures
        match r {
            Ok(v) => map_id_spec(file_stem@) == Ok::<Option<u16>, ()>(v),
            Err(_) => map_id_spec(file_stem@) is Err,
        },
{
    proof {
        reveal_strlit("Map");
    }
    let chars = chars_of(file_stem);
    let len = chars.len();
    if len < 3 || chars[0] != 'M' || chars[1] != 'a' || chars[2] != 'p' {
        proof {
            if len >= 3 {
                assert(!(file_stem@.subrange(0, 3) =~= "Map"@)) by {
                    assert(file_stem@.subrange(0, 3)[0] == chars@[0]);
                    assert(file_stem@.subrange(0, 3)[1] == chars@[1]);
                    assert(file_stem@.subrange(0, 3)[2] == chars@[2]);
                }
            }
        }
        return Ok(None);
    }
    assert(file_stem@.subrange(0, 3) =~= "Map"@);
    let rest = string_of(&chars, 3, len);
    let rest_chars = chars_of(rest.as_str());
    assert(rest@ =~= file_stem@.subrange(3, file_stem@.len() as int));
    let mut i: usize = 0;
    while i < rest_chars.len()
        invariant
            i <= rest_chars@.len(),
            rest_chars@ == rest@,
            file_stem@.len() >= 3,
            file_stem@.subrange(0, 3) == "Map"@,
            rest@ == file_stem@.subrange(3, file_stem@.len() as int),
            forall|j: int| 0 <= j < i ==> crate::decimal::is_digit(#[trigger] rest@[j]),
        decreases rest_chars@.len() - i,
    {
        let c = rest_chars[i];
        if !('0' <= c && c <= '9') {
            assert(!all_digits(rest@)) by {
                assert(!crate::decimal::is_digit(rest@[i as int]));
            }
            return Ok(None);
        }
        i = i + 1;
    }
    assert(all_digits(rest@));
    match parse_u16(rest.as_str()) {
        Some(n) => Ok(Some(n)),
        None => Err(InvalidMapId),
    }
}

/// The kinds of input that scripts are dumped from.
#[derive(Debug, Clone, Copy, PartialEq, Eq)]
pub enum FileKind {
    GameMap,
    CommonEvents,
    Troops,
    Dir,
}

/// Why an input's kind could not be told.
#[derive(Debug, Clone, Copy, PartialEq, Eq)]
pub enum FileKindError {
    /// The file has no name, or one that is not text.
    MissingFileName,
    /// The file's name has no `.`.
    NoExtension,
    /// The file's extension is not `json`.
    NotJson,
    /// The file is a map file whose number does not make a map id.
    InvalidMapId,
}

/// The index of the last `.` in `s`.
pub open spec fn last_dot(s: Seq<char>) -> Option<int>
    decreases s.len(),
{
    if s.len() == 0 {
        None
    } else if s.last() == '.' {
        Some(s.len() - 1)
    } else {
        last_dot(s.drop_last())
    }
}

/// The kind of a file with the given name, from its stem.
pub open spec fn file_kind_of_name(name: Seq<char>) -> Result<Option<FileKind>, FileKindError> {
    match last_dot(name) {
        None => Err(FileKindError::NoExtension),
        Some(d) => {
            let stem = name.subrange(0, d);
            let extension = name.subrange(d + 1, name.len() as int);
            if extension != "json"@ {
                Err(FileKindError::NotJson)
            } else {
                match map_id_spec(stem) {
                    Err(_) => Err(FileKindError::InvalidMapId),
                    Ok(Some(_)) => Ok(Some(FileKind::GameMap)),
                    Ok(None) => if stem == "CommonEvents"@ {
                        Ok(Some(FileKind::CommonEvents))
                    } else if stem == "Troops"@ {
                        Ok(Some(FileKind::Troops))
                    } else {
                        Ok(None)
                    },
                }
            }
        },
    }
}

/// The kind of an input: a directory where directories are allowed, else a
/// map, common events or troops file, by name.
pub open spec fn file_kind_spec(is_dir: bool, file_name: Option<Seq<char>>, allow_dir: bool) -> Result<
    Option<FileKind>,
    FileKindError,
> {
    if !is_dir {
        match file_name {
            None => Err(FileKindError::MissingFileName),
            Some(name) => file_kind_of_name(name),
        }
    } else if allow_dir {
        Ok(Some(FileKind::Dir))
    } else {
        Ok(None)
    }
}

/// The position of the last `.` in `chars`.
fn find_last_dot(chars: &Vec<char>) -> (r: Option<usize>)
    ensures
        match r {
            Some(d) => last_dot(chars@) == Some(d as int) && d < chars@.len(),
            None => last_dot(chars@) is None,
        },
{
    let mut i: usize = chars.len();
    assert(chars@.subrange(0, i as int) =~= chars@);
    while i > 0
        invariant
            i <= chars@.len(),
            last_dot(chars@) == last_dot(chars@.subrange(0, i as int)),
        decreases i,
    {
        let ghost prefix = chars@.subrange(0, i as int);
        assert(prefix.drop_last() =~= chars@.subrange(0, i - 1));
        if chars[i - 1] == '.' {
            return Some(i - 1);
        }
        i = i - 1;
    }
    None
}

/// Whether the characters `chars[start..end]` spell `word`.
fn spells(chars: &Vec<char>, start: usize, end: usize, word: &str) -> (r: bool)
    requires
        start <= end <= chars@.len(),
    ensures
        r == (chars@.subrange(start as int, end as int) == word@),
{
    let s = string_of(chars, start, end);
    let w = crate::text::owned(word);
    crate::text::string_eq(&s, &w)
}

impl FileKind {
    /// The kind of an input, from whether it is a directory and from its file
    /// name (`None` where it has none that is text).
    pub fn new(is_dir: bool, file_name: Option<&str>, allow_dir: bool) -> (r: Result<
        Option<Self>,
        FileKindError,
    >)
        ensures
            r == file_kind_spec(
                is_dir,
                match file_name {
                    Some(n) => Some(n@),
                    None => None,
                },
                allow_dir,
            ),
    {
        if !is_dir {
            let name = match file_name {
                Some(n) => n,
                None => return Err(FileKindError::MissingFileName),
            };
            let chars = chars_of(name);
            let d = match find_last_dot(&chars) {
                Some(d) => d,
                None => return Err(FileKindError::NoExtension),
            };
            if !spells(&chars, d + 1, chars.len(), "json") {
                return Err(FileKindError::NotJson);
            }
            let stem = string_of(&chars, 0, d);
            match extract_map_id(stem.as_str()) {
                Err(_) => Err(FileKindError::InvalidMapId),
                Ok(Some(_)) => Ok(Some(Self::GameMap)),
                Ok(None) => {
                    if spells(&chars, 0, d, "CommonEvents") {
                        Ok(Some(Self::CommonEvents))
                    } else if spells(&chars, 0, d, "Troops") {
                        Ok(Some(Self::Troops))
                    } else {
                        Ok(None)
                    }
                },
            }
        } else if allow_dir {
            Ok(Some(Self::Dir))
        } else {
            Ok(None)
        }
    }

    /// Returns `true` if this is a dir.
    pub fn is_dir(self) -> (r: bool)
        ensures
            r == (self == FileKind::Dir),
    {
        match self {
            Self::Dir => true,
            _ => false,
        }
    }
}

/// Why no page could be chosen.
#[derive(Debug, Clone, Copy, PartialEq, Eq)]
pub enum PageError {
    /// No page was asked for, and there is not exactly one.
    MultiplePages,
    /// The page asked for does not exist.
    NoPage { index: u16 },
}

/// The page to take of `page_count` pages: the one asked for, or the only one.
pub open spec fn page_choice(page_count: nat, event_page: Option<u16>) -> Result<usize, PageError> {
    match event_page {
        Some(p) => if (p as nat) < page_count {
            Ok(p as usize)
        } else {
            Err(PageError::NoPage { index: p })
        },
        None => if page_count == 1 {
            Ok(0)
        } else {
            Err(PageError::MultiplePages)
        },
    }
}

/// Chooses the page to dump.
pub fn select_page(page_count: usize, event_page: Option<u16>) -> (r: Result<usize, PageError>)
    ensures
        r == page_choice(page_count as nat, event_page),
{
    match event_page {
        Some(p) => if (p as usize) < page_count {
            Ok(p as usize)
        } else {
            Err(PageError::NoPage { index: p })
        },
        None => if page_count == 1 {
            Ok(0)
        } else {
            Err(PageError::MultiplePages)
        },
    }
}

/// Whether every command of a page is empty (code 0): such pages are skipped.
pub fn is_blank_page(list: &Vec<EventCommand>) -> (r: bool)
    ensures
        r == (forall|i: int| 0 <= i < list@.len() ==> (#[trigger] list@[i]).code == 0),
{
    let mut i: usize = 0;
    while i < list.len()
        invariant
            i <= list@.len(),
            forall|j: int| 0 <= j < i ==> (#[trigger] list@[j]).code == 0,
        decreases list@.len() - i,
    {
        if list[i].code != 0 {
            return false;
        }
        i = i + 1;
    }
    true
}

/// The decimal text of `n`, with zeros before it up to `width` characters.
pub open spec fn padded(n: nat, width: nat) -> Seq<char> {
    let t = nat_text(n);
    if t.len() < width {
        Seq::new((width - t.len()) as nat, |i: int| '0') + t
    } else {
        t
    }
}

/// Appends the decimal text of `n`, padded with zeros to `width` characters.
pub fn push_padded(out: &mut String, n: u64, width: usize)
    ensures
        final(out)@ == old(out)@ + padded(n as nat, width as nat),
{
    let mut t = String::new();
    push_u64(&mut t, n);
    let ghost text = nat_text(n as nat);
    assert(t@ =~= text);
    let len = t.unicode_len();
    let ghost start = out@;
    if len < width {
        let mut k: usize = 0;
        while k < width - len
            invariant
                k <= width - len,
                len < width,
                out@ == start + Seq::new(k as nat, |i: int| '0'),
            decreases width - len - k,
        {
            push_char(out, '0');
            k = k + 1;
            assert(out@ =~= start + Seq::new(k as nat, |i: int| '0'));
        }
    }
    push_str(out, t.as_str());
    assert(final(out)@ =~= old(out)@ + padded(n as nat, width as nat));
}

/// The directory of a map's scripts: its id in three digits.
pub fn map_dir_name(map_id: u16) -> (r: String)
    ensures
        r@ == padded(map_id as nat, 3),
{
    let mut r = String::new();
    push_padded(&mut r, map_id as u64, 3);
    assert(r@ =~= padded(map_id as nat, 3));
    r
}

/// The file of a map event's page: `event_<id>_page_<page>.py`.
pub open spec fn event_file_name_spec(event_id: nat, page: nat) -> Seq<char> {
    "event_"@ + padded(event_id, 2) + "_page_"@ + padded(page, 2) + ".py"@
}

/// Names the file of a map event's page.
pub fn event_file_name(event_id: u32, page: u16) -> (r: String)
    ensures
        r@ == event_file_name_spec(event_id as nat, page as nat),
{
    let mut r = String::new();
    push_str(&mut r, "event_");
    push_padded(&mut r, event_id as u64, 2);
    push_str(&mut r, "_page_");
    push_padded(&mut r, page as u64, 2);
    push_str(&mut r, ".py");
    assert(r@ =~= event_file_name_spec(event_id as nat, page as nat));
    r
}

/// The file of a common event: `<id>_<name>.py`.
pub open spec fn common_event_file_name_spec(id: nat, name: Seq<char>) -> Seq<char> {
    padded(id, 2) + seq!['_'] + name + ".py"@
}

/// Names the file of a common event.
pub fn common_event_file_name(id: u32, name: &str) -> (r: String)
    ensures
        r@ == common_event_file_name_spec(id as nat, name@),
{
    let mut r = String::new();
    push_padded(&mut r, id as u64, 2);
    push_char(&mut r, '_');
    push_str(&mut r, name);
    push_str(&mut r, ".py");
    assert(r@ =~= common_event_file_name_spec(id as nat, name@));
    r
}

/// A troop's name with each `*` replaced by a full-width asterisk, which file
/// names can hold.
pub open spec fn safe_troop_name(name: Seq<char>) -> Seq<char> {
    name.map_values(|c: char| if c == '*' { '\u{FF0A}' } else { c })
}

/// The file of a troop's page: `<id>_page_<page>_<name>.py`.
pub open spec fn troop_file_name_spec(id: nat, page: nat, name: Seq<char>) -> Seq<char> {
    padded(id, 2) + "_page_"@ + padded(page, 2) + seq!['_'] + safe_troop_name(name) + ".py"@
}

/// Names the file of a troop's page.
pub fn troop_file_name(id: u32, page: usize, name: &str) -> (r: String)
    ensures
        r@ == troop_file_name_spec(id as nat, page as nat, name@),
{
    let mut r = String::new();
    push_padded(&mut r, id as u64, 2);
    push_str(&mut r, "_page_");
    push_padded(&mut r, page as u64, 2);
    push_char(&mut r, '_');
    let chars = chars_of(name);
    let ghost start = r@;
    let mut i: usize = 0;
    while i < chars.len()
        invariant
            i <= chars@.len(),
            chars@ == name@,
            r@ == start + safe_troop_name(name@.subrange(0, i as int)),
        decreases chars@.len() - i,
    {
        let c = chars[i];
        if c == '*' {
            push_char(&mut r, '\u{FF0A}');
        } else {
            push_char(&mut r, c);
        }
        i = i + 1;
        assert(r@ =~= start + safe_troop_name(name@.subrange(0, i as int)));
    }
    assert(name@.subrange(0, chars@.len() as int) =~= name@);
    push_str(&mut r, ".py");
    assert(r@ =~= troop_file_name_spec(id as nat, page as nat, name@));
    r
}

/// A page must be asked for exactly when there is not just one: without a
/// page asked for, the choice succeeds, with the only page, exactly when
/// there is one page; a page asked for is taken exactly when it exists.
pub proof fn lemma_page_needed_unless_single(page_count: nat, asked: u16)
    ensures
        page_choice(page_count, None) is Ok <==> page_count == 1,
        page_count == 1 ==> page_choice(page_count, None) == Ok::<usize, PageError>(0),
        page_choice(page_count, Some(asked)) is Ok <==> (asked as nat) < page_count,
        (asked as nat) < page_count ==> page_choice(page_count, Some(asked)) == Ok::<
            usize,
            PageError,
        >(asked as usize),
{
}

} // verus!
