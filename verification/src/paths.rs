//! Paths as `/`-separated texts. Two texts are the same path where they have the
//! same components: repeated and trailing `/` and `.` components say nothing, but
//! for a `.` at the start.
use vstd::prelude::*;
use vstd::string::*;

use crate::text::{
    characters, join2, join3, lowercase, lowered, same_text, string_of, views,
};

verus! {

// ---------------------------------------------------------------------------
// Components
// ---------------------------------------------------------------------------
/// Where the part before the first `/` ends.
pub open spec fn piece_end(text: Seq<char>) -> int
    decreases text.len(),
{
    if text.len() == 0 || text[0] == '/' {
        0
    } else {
        1 + piece_end(text.drop_first())
    }
}

proof fn lemma_piece_end(text: Seq<char>)
    ensures
        0 <= piece_end(text) <= text.len(),
    decreases text.len(),
{
    if text.len() > 0 && text[0] != '/' {
        lemma_piece_end(text.drop_first());
    }
}

/// The part before the first `/`.
pub open spec fn first_piece(text: Seq<char>) -> Seq<char> {
    text.take(piece_end(text))
}

/// What follows the first `/`.
pub open spec fn rest_of(text: Seq<char>) -> Seq<char> {
    if piece_end(text) < text.len() {
        text.skip(piece_end(text) + 1)
    } else {
        Seq::empty()
    }
}

/// The part says nothing about where a path leads.
pub open spec fn is_void(piece: Seq<char>) -> bool {
    piece.len() == 0 || piece == seq!['.']
}

/// The parts between the `/` that say where a path leads.
pub open spec fn pieces(text: Seq<char>) -> Seq<Seq<char>>
    decreases text.len(),
    via pieces_decreases
{
    if text.len() == 0 {
        Seq::empty()
    } else if is_void(first_piece(text)) {
        pieces(rest_of(text))
    } else {
        seq![first_piece(text)] + pieces(rest_of(text))
    }
}

#[via_fn]
proof fn pieces_decreases(text: Seq<char>) {
    lemma_piece_end(text);
}

/// Where a path starts: at the root, or expressly at the current directory.
pub open spec fn anchor(path: Seq<char>) -> Seq<Seq<char>> {
    if path.len() > 0 && path[0] == '/' {
        seq![seq!['/']]
    } else if first_piece(path) == seq!['.'] {
        seq![seq!['.']]
    } else {
        Seq::empty()
    }
}

/// The components of a path, by which paths are compared.
pub open spec fn components(path: Seq<char>) -> Seq<Seq<char>> {
    anchor(path) + pieces(path)
}

/// The components of a path that may be missing.
pub open spec fn components_of(path: Option<String>) -> Option<Seq<Seq<char>>> {
    match path {
        Some(path) => Some(components(path@)),
        None => None,
    }
}

/// The components of each of the paths.
pub open spec fn places(paths: Seq<Seq<char>>) -> Seq<Seq<Seq<char>>> {
    paths.map_values(|path: Seq<char>| components(path))
}

/// A list of paths holds one with the components.
pub open spec fn has_path(items: Seq<String>, place: Seq<Seq<char>>) -> bool {
    exists|i: int| 0 <= i < items.len() && components((#[trigger] items[i])@) == place
}

fn find_piece_end(text: &[char], from: usize) -> (result: usize)
    requires
        from <= text@.len(),
    ensures
        result == from + piece_end(text@.skip(from as int)),
        from <= result <= text@.len(),
{
    let mut end: usize = from;
    while end < text.len() && text[end] != '/'
        invariant
            from <= end <= text@.len(),
            from + piece_end(text@.skip(from as int)) == end + piece_end(text@.skip(end as int)),
        decreases text@.len() - end,
    {
        assert(text@.skip(end as int).drop_first() =~= text@.skip(end + 1));
        end += 1;
    }
    end
}

/// The components of a path.
pub fn path_components(path: &str) -> (result: Vec<String>)
    ensures
        views(result@) == components(path@),
{
    let source = characters(path);
    let mut result: Vec<String> = Vec::new();
    let mut index: usize = 0;
    assert(source@.skip(0) =~= path@);
    if source.len() > 0 && source[0] == '/' {
        result.push(string_of(&source, 0, 1));
        assert(source@.subrange(0, 1) =~= seq!['/']);
    } else {
        let end: usize = find_piece_end(&source, 0);
        assert(first_piece(path@) =~= source@.subrange(0, end as int));
        if end == 1 && source[0] == '.' {
            result.push(string_of(&source, 0, 1));
            assert(source@.subrange(0, 1) =~= seq!['.']);
        } else {
            assert(first_piece(path@) != seq!['.']) by {
                if first_piece(path@) == seq!['.'] {
                    assert(first_piece(path@).len() == 1 && first_piece(path@)[0] == '.');
                }
            }
        }
    }
    assert(views(result@) =~= anchor(path@));
    while index < source.len()
        invariant
            index <= source@.len(),
            views(result@) + pieces(source@.skip(index as int)) == components(path@),
        decreases source@.len() - index,
    {
        let ghost current = source@.skip(index as int);
        let ghost before = views(result@);
        let end: usize = find_piece_end(&source, index);
        let piece = string_of(&source, index, end);
        proof {
            assert(source@.subrange(index as int, end as int) =~= first_piece(current));
        }
        let next: usize = if end < source.len() {
            end + 1
        } else {
            end
        };
        assert(rest_of(current) =~= source@.skip(next as int));
        if end == index || (end - index == 1 && source[index] == '.') {
            assert(is_void(first_piece(current))) by {
                if end != index {
                    assert(first_piece(current) =~= seq!['.']);
                }
            }
        } else {
            assert(!is_void(first_piece(current))) by {
                if first_piece(current) == seq!['.'] {
                    assert(first_piece(current).len() == 1 && first_piece(current)[0] == '.');
                }
            }
            result.push(piece);
            assert(views(result@) =~= before.push(first_piece(current)));
            assert(before.push(first_piece(current)) + pieces(rest_of(current)) =~= before + (
            seq![first_piece(current)] + pieces(rest_of(current))));
        }
        index = next;
    }
    assert(source@.skip(index as int) =~= Seq::<char>::empty());
    assert(views(result@) + Seq::<Seq<char>>::empty() =~= views(result@));
    result
}

fn begins_with(whole: &Vec<String>, front: &Vec<String>) -> (result: bool)
    ensures
        result == views(front@).is_prefix_of(views(whole@)),
{
    if front.len() > whole.len() {
        return false;
    }
    let mut index: usize = 0;
    while index < front.len()
        invariant
            index <= front@.len() <= whole@.len(),
            forall|i: int| 0 <= i < index ==> views(front@)[i] == #[trigger] views(whole@)[i],
        decreases front@.len() - index,
    {
        if !same_text(front[index].as_str(), whole[index].as_str()) {
            assert(views(front@)[index as int] != views(whole@).subrange(
                0,
                front@.len() as int,
            )[index as int]);
            return false;
        }
        assert(views(front@)[index as int] == views(whole@)[index as int]);
        index += 1;
    }
    assert(views(front@) =~= views(whole@).subrange(0, front@.len() as int));
    true
}

/// Whether two texts are the same path.
pub fn same_path(a: &str, b: &str) -> (result: bool)
    ensures
        result == (components(a@) == components(b@)),
{
    let left = path_components(a);
    let right = path_components(b);
    let same: bool = left.len() == right.len() && begins_with(&left, &right);
    proof {
        let (x, y) = (views(left@), views(right@));
        if same {
            assert(x.subrange(0, y.len() as int) =~= x);
        } else if x == y {
            assert(x.subrange(0, y.len() as int) =~= y);
        }
    }
    same
}

/// Whether two paths that may be missing are the same.
pub fn same_optional_path(a: &Option<String>, b: &Option<String>) -> (result: bool)
    ensures
        result == (components_of(*a) == components_of(*b)),
{
    match (a, b) {
        (Some(a), Some(b)) => same_path(a.as_str(), b.as_str()),
        (None, None) => true,
        _ => false,
    }
}

/// Whether a list of paths holds the path.
pub fn contains_path(items: &Vec<String>, path: &str) -> (result: bool)
    ensures
        result == has_path(items@, components(path@)),
{
    let mut index: usize = 0;
    while index < items.len()
        invariant
            index <= items@.len(),
            forall|i: int|
                0 <= i < index ==> components((#[trigger] items@[i])@) != components(path@),
        decreases items@.len() - index,
    {
        if same_path(items[index].as_str(), path) {
            return true;
        }
        index += 1;
    }
    false
}

// ---------------------------------------------------------------------------
// Names
// ---------------------------------------------------------------------------
/// Where the part behind the last `separator` starts.
pub open spec fn behind_last(text: Seq<char>, separator: char) -> int
    decreases text.len(),
{
    if text.len() == 0 {
        0
    } else if text.last() == separator {
        text.len() as int
    } else {
        behind_last(text.drop_last(), separator)
    }
}

pub proof fn lemma_behind_last(text: Seq<char>, separator: char)
    ensures
        0 <= behind_last(text, separator) <= text.len(),
        behind_last(text, separator) > 0 ==> text[behind_last(text, separator) - 1] == separator,
    decreases text.len(),
{
    if text.len() > 0 && text.last() != separator {
        lemma_behind_last(text.drop_last(), separator);
    }
}

/// The last component of a path, nothing where it is the root, `.` or `..`.
/// A trailing `/` and `.` components are passed over.
pub open spec fn name_of(path: Seq<char>) -> Option<Seq<char>>
    decreases path.len(),
    via name_of_decreases
{
    let start = behind_last(path, '/');
    let name = path.skip(start);
    if path.len() == 0 {
        None
    } else if name.len() == 0 {
        name_of(path.drop_last())
    } else if name == seq!['.'] && start > 0 {
        name_of(path.take(start))
    } else if name == seq!['.'] || name == seq!['.', '.'] {
        None
    } else {
        Some(name)
    }
}

#[via_fn]
proof fn name_of_decreases(path: Seq<char>) {
    lemma_behind_last(path, '/');
}

/// The part of a file name behind its last `.`, nothing where there is no `.`
/// behind the first character.
pub open spec fn extension_in(name: Seq<char>) -> Option<Seq<char>> {
    let start = behind_last(name, '.');
    if start <= 1 {
        None
    } else {
        Some(name.skip(start))
    }
}

/// The extension of a path in lower case, empty where it has none.
pub open spec fn extension_of(path: Seq<char>) -> Seq<char> {
    match name_of(path) {
        Some(name) => match extension_in(name) {
            Some(extension) => lowered(extension),
            None => Seq::empty(),
        },
        None => Seq::empty(),
    }
}

/// The path without `/` and `.` components at its end.
pub open spec fn tail_trimmed(path: Seq<char>) -> Seq<char>
    decreases path.len(),
    via tail_decreases
{
    let start = behind_last(path, '/');
    if start == 0 || !is_void(path.skip(start)) {
        path
    } else if start == 1 {
        path.take(1)
    } else {
        tail_trimmed(path.take(start - 1))
    }
}

#[via_fn]
proof fn tail_decreases(path: Seq<char>) {
    lemma_behind_last(path, '/');
}

/// The directory a path is in, nothing for the root and for the empty path.
pub open spec fn parent_of(path: Seq<char>) -> Option<Seq<char>> {
    let trimmed = tail_trimmed(path);
    let start = behind_last(trimmed, '/');
    if trimmed.len() == 0 || trimmed == seq!['/'] {
        None
    } else if start == 0 {
        Some(Seq::empty())
    } else if start == 1 {
        Some(seq!['/'])
    } else {
        Some(tail_trimmed(trimmed.take(start - 1)))
    }
}

/// The path is `base` or lies below it.
pub open spec fn is_under(path: Seq<char>, base: Seq<char>) -> bool {
    components(base).is_prefix_of(components(path))
}

/// What follows the first parts of a path that say where it leads.
pub open spec fn behind_pieces(text: Seq<char>, count: int) -> Seq<char>
    decreases text.len(),
    via behind_decreases
{
    if text.len() == 0 {
        Seq::empty()
    } else if is_void(first_piece(text)) {
        behind_pieces(rest_of(text), count)
    } else if count <= 0 {
        text
    } else {
        behind_pieces(rest_of(text), count - 1)
    }
}

#[via_fn]
proof fn behind_decreases(text: Seq<char>, count: int) {
    lemma_piece_end(text);
}

/// The path as seen from `base`, where it lies there.
pub open spec fn relative_to(path: Seq<char>, base: Seq<char>) -> Seq<char> {
    if !is_under(path, base) {
        path
    } else if components(base).len() == 0 {
        tail_trimmed(path)
    } else {
        tail_trimmed(behind_pieces(path, pieces(base).len() as int))
    }
}

/// `name` in the directory `base`; an absolute `name` stands for itself.
pub open spec fn joined(base: Seq<char>, name: Seq<char>) -> Seq<char> {
    if name.len() > 0 && name[0] == '/' {
        name
    } else if base.len() == 0 || base.last() == '/' {
        base + name
    } else {
        base + "/"@ + name
    }
}

fn find_behind_last(text: &[char], length: usize, separator: char) -> (result: usize)
    requires
        length <= text@.len(),
    ensures
        result == behind_last(text@.take(length as int), separator),
        result <= length,
{
    let mut end: usize = length;
    while end > 0
        invariant
            end <= length <= text@.len(),
            behind_last(text@.take(length as int), separator) == behind_last(
                text@.take(end as int),
                separator,
            ),
        decreases end,
    {
        assert(text@.take(end as int).last() == text@[end - 1]);
        if text[end - 1] == separator {
            return end;
        }
        assert(text@.take(end as int).drop_last() =~= text@.take(end - 1));
        end -= 1;
    }
    end
}

/// The last component of a path.
pub fn file_name(path: &str) -> (result: Option<String>)
    ensures
        match result {
            Some(name) => name_of(path@) == Some(name@),
            None => name_of(path@) is None,
        },
{
    let source = characters(path);
    let mut end: usize = source.len();
    assert(source@.take(end as int) =~= path@);
    while end > 0
        invariant
            end <= source@.len(),
            name_of(path@) == name_of(source@.take(end as int)),
        decreases end,
    {
        let ghost current = source@.take(end as int);
        let start: usize = find_behind_last(&source, end, '/');
        let ghost name = current.skip(start as int);
        proof {
            lemma_behind_last(current, '/');
            assert(source@.subrange(start as int, end as int) =~= name);
        }
        if start == end {
            assert(current.drop_last() =~= source@.take(end - 1));
            end -= 1;
        } else if end - start == 1 && source[start] == '.' {
            assert(name =~= seq!['.']);
            if start == 0 {
                return None;
            }
            assert(current.take(start as int) =~= source@.take(start as int));
            end = start;
        } else if end - start == 2 && source[start] == '.' && source[start + 1] == '.' {
            assert(name =~= seq!['.', '.']);
            assert(name.len() != seq!['.'].len());
            return None;
        } else {
            assert(name != seq!['.']) by {
                if name == seq!['.'] {
                    assert(name[0] == source@[start as int]);
                    assert(seq!['.'].len() == 1);
                }
            }
            assert(name != seq!['.', '.']) by {
                if name == seq!['.', '.'] {
                    assert(name[0] == source@[start as int] && name[1] == source@[start + 1]);
                    assert(seq!['.', '.'].len() == 2);
                }
            }
            return Some(string_of(&source, start, end));
        }
    }
    None
}

/// The extension of a path in lower case, empty where it has none.
pub fn extension(path: &str) -> (result: String)
    ensures
        result@ == extension_of(path@),
{
    match file_name(path) {
        None => String::new(),
        Some(name) => {
            let source = characters(name.as_str());
            let start: usize = find_behind_last(&source, source.len(), '.');
            assert(source@.take(source@.len() as int) =~= name@);
            if start <= 1 {
                String::new()
            } else {
                let end: usize = source.len();
                assert(source@.subrange(start as int, end as int) =~= name@.skip(start as int));
                lowercase(string_of(&source, start, end).as_str())
            }
        },
    }
}

fn find_tail(source: &[char], length: usize) -> (result: usize)
    requires
        length <= source@.len(),
    ensures
        result <= length,
        tail_trimmed(source@.take(length as int)) == source@.take(result as int),
{
    let mut end: usize = length;
    loop
        invariant
            end <= length <= source@.len(),
            tail_trimmed(source@.take(length as int)) == tail_trimmed(source@.take(end as int)),
        decreases end,
    {
        let ghost current = source@.take(end as int);
        let start: usize = find_behind_last(source, end, '/');
        let ghost name = current.skip(start as int);
        proof {
            lemma_behind_last(current, '/');
        }
        let void: bool = start == end || (end - start == 1 && source[start] == '.');
        assert(void == is_void(name)) by {
            if end - start == 1 && source@[start as int] == '.' {
                assert(name =~= seq!['.']);
            }
            if name == seq!['.'] {
                assert(name.len() == 1 && name[0] == '.');
            }
        }
        if start == 0 || !void {
            return end;
        }
        if start == 1 {
            assert(current.take(1) =~= source@.take(1));
            return 1;
        }
        assert(current.take(start - 1) =~= source@.take(start - 1));
        end = start - 1;
    }
}

/// The directory a path is in.
pub fn parent(path: &str) -> (result: Option<String>)
    ensures
        match result {
            Some(directory) => parent_of(path@) == Some(directory@),
            None => parent_of(path@) is None,
        },
{
    let source = characters(path);
    let end: usize = find_tail(&source, source.len());
    let ghost trimmed = source@.take(end as int);
    assert(source@.take(source@.len() as int) =~= path@);
    if end == 0 {
        return None;
    }
    if end == 1 && source[0] == '/' {
        assert(trimmed =~= seq!['/']);
        return None;
    }
    assert(trimmed != seq!['/']) by {
        if trimmed == seq!['/'] {
            assert(trimmed.len() == 1 && trimmed[0] == '/');
        }
    }
    let start: usize = find_behind_last(&source, end, '/');
    proof {
        lemma_behind_last(trimmed, '/');
    }
    if start == 0 {
        let empty = String::new();
        assert(empty@ =~= Seq::<char>::empty());
        return Some(empty);
    }
    if start == 1 {
        assert(source@.subrange(0, 1) =~= seq!['/']);
        return Some(string_of(&source, 0, 1));
    }
    assert(trimmed.take(start - 1) =~= source@.take(start - 1));
    let length: usize = find_tail(&source, start - 1);
    assert(source@.subrange(0, length as int) =~= source@.take(length as int));
    Some(string_of(&source, 0, length))
}

/// Whether a path is `base` or lies below it.
pub fn lies_under(path: &str, base: &str) -> (result: bool)
    ensures
        result == is_under(path@, base@),
{
    begins_with(&path_components(path), &path_components(base))
}

fn count_pieces(path: &str) -> (result: usize)
    ensures
        result == pieces(path@).len(),
{
    let all = path_components(path);
    let source = characters(path);
    assert(all@.len() == views(all@).len());
    if source.len() > 0 && source[0] == '/' {
        all.len() - 1
    } else {
        let end: usize = find_piece_end(&source, 0);
        assert(source@.skip(0) =~= path@);
        if end == 1 && source[0] == '.' {
            assert(first_piece(path@) =~= seq!['.']);
            all.len() - 1
        } else {
            assert(first_piece(path@) != seq!['.']) by {
                if first_piece(path@) == seq!['.'] {
                    assert(first_piece(path@).len() == 1 && first_piece(path@)[0] == '.');
                }
            }
            all.len()
        }
    }
}

fn find_behind_pieces(source: &[char], count: usize) -> (result: usize)
    ensures
        result <= source@.len(),
        behind_pieces(source@, count as int) == source@.skip(result as int),
{
    let mut index: usize = 0;
    let mut left: usize = count;
    assert(source@.skip(0) =~= source@);
    while index < source.len()
        invariant
            index <= source@.len(),
            behind_pieces(source@, count as int) == behind_pieces(
                source@.skip(index as int),
                left as int,
            ),
        decreases source@.len() - index,
    {
        let ghost current = source@.skip(index as int);
        let end: usize = find_piece_end(source, index);
        let void: bool = end == index || (end - index == 1 && source[index] == '.');
        assert(void == is_void(first_piece(current))) by {
            if end - index == 1 && source@[index as int] == '.' {
                assert(first_piece(current) =~= seq!['.']);
            }
            if first_piece(current) == seq!['.'] {
                assert(first_piece(current).len() == 1 && first_piece(current)[0] == '.');
            }
        }
        let next: usize = if end < source.len() {
            end + 1
        } else {
            end
        };
        assert(rest_of(current) =~= source@.skip(next as int));
        if !void {
            if left == 0 {
                return index;
            }
            left -= 1;
        }
        index = next;
    }
    assert(source@.skip(index as int) =~= Seq::<char>::empty());
    index
}

/// A path as seen from `base`, where it lies there.
pub fn relative(path: &str, base: &str) -> (result: String)
    ensures
        result@ == relative_to(path@, base@),
{
    if !lies_under(path, base) {
        return path.to_string();
    }
    let source = characters(path);
    let above = path_components(base);
    assert(above@.len() == views(above@).len());
    let start: usize = if above.len() == 0 {
        assert(source@.skip(0) =~= source@);
        0
    } else {
        find_behind_pieces(&source, count_pieces(base))
    };
    let text = string_of(&source, start, source.len());
    assert(source@.subrange(start as int, source@.len() as int) =~= source@.skip(start as int));
    let rest = characters(text.as_str());
    let end: usize = find_tail(&rest, rest.len());
    assert(rest@.take(rest@.len() as int) =~= text@);
    assert(rest@.subrange(0, end as int) =~= rest@.take(end as int));
    string_of(&rest, 0, end)
}

/// `name` in the directory `base`.
pub fn join(base: &str, name: &str) -> (result: String)
    ensures
        result@ == joined(base@, name@),
{
    let inner = characters(name);
    if inner.len() > 0 && inner[0] == '/' {
        return name.to_string();
    }
    let outer = characters(base);
    if outer.len() == 0 || outer[outer.len() - 1] == '/' {
        join2(base, name)
    } else {
        join3(base, "/", name)
    }
}

// ---------------------------------------------------------------------------
// How a path is written
// ---------------------------------------------------------------------------
/// What is written behind a `/` adds its parts.
proof fn lemma_pieces_joined(front: Seq<char>, back: Seq<char>)
    ensures
        pieces(front + seq!['/'] + back) == pieces(front) + pieces(back),
    decreases front.len(),
{
    let whole = front + seq!['/'] + back;
    lemma_piece_end(front);
    lemma_first_of_joined(front, back);
    if front.len() == 0 {
        assert(rest_of(whole) =~= back);
        assert(pieces(front) + pieces(back) =~= pieces(back));
    } else {
        let piece = first_piece(front);
        if piece_end(front) < front.len() {
            lemma_pieces_joined(rest_of(front), back);
            assert(rest_of(whole) =~= rest_of(front) + seq!['/'] + back);
        } else {
            assert(rest_of(whole) =~= back);
            assert(pieces(rest_of(front)) =~= Seq::<Seq<char>>::empty());
        }
        if is_void(piece) {
            assert(pieces(front) == pieces(rest_of(front)));
        }
        assert(pieces(whole) =~= pieces(front) + pieces(back));
    }
}

/// A `/` behind a text leaves its first part as it is.
proof fn lemma_first_of_joined(front: Seq<char>, back: Seq<char>)
    ensures
        piece_end(front + seq!['/'] + back) == piece_end(front),
        first_piece(front + seq!['/'] + back) == first_piece(front),
    decreases front.len(),
{
    let whole = front + seq!['/'] + back;
    lemma_piece_end(front);
    if front.len() > 0 && front[0] != '/' {
        lemma_first_of_joined(front.drop_first(), back);
        assert(whole.drop_first() =~= front.drop_first() + seq!['/'] + back);
    }
    assert(first_piece(whole) =~= first_piece(front));
}

/// A path written behind another and a `/` has the components of the one, and
/// behind them the parts of the other.
proof fn lemma_components_joined(front: Seq<char>, back: Seq<char>)
    requires
        front.len() > 0,
    ensures
        components(front + seq!['/'] + back) == components(front) + pieces(back),
{
    let whole = front + seq!['/'] + back;
    lemma_pieces_joined(front, back);
    lemma_first_of_joined(front, back);
    assert(whole[0] == front[0]);
    assert(components(whole) =~= components(front) + pieces(back));
}

/// How often `/` stands between two parts of a path, and whether one stands at
/// its end, does not matter.
pub proof fn law_separators(front: Seq<char>, back: Seq<char>)
    requires
        front.len() > 0,
    ensures
        components(front + seq!['/']) == components(front),
        components(front + seq!['/', '/'] + back) == components(front + seq!['/'] + back),
{
    let nothing = Seq::<char>::empty();
    lemma_components_joined(front, nothing);
    assert(front + seq!['/'] + nothing =~= front + seq!['/']);
    assert(components(front) + pieces(nothing) =~= components(front));
    lemma_components_joined(front, back);
    lemma_components_joined(front, seq!['/'] + back);
    lemma_pieces_joined(nothing, back);
    assert(nothing + seq!['/'] + back =~= seq!['/'] + back);
    assert(pieces(nothing) + pieces(back) =~= pieces(back));
    assert(front + seq!['/', '/'] + back =~= front + seq!['/'] + (seq!['/'] + back));
}

/// What is joined to a directory lies under it.
pub proof fn law_joined_under(base: Seq<char>, name: Seq<char>)
    requires
        base.len() > 0,
        name.len() > 0 ==> name[0] != '/',
    ensures
        is_under(joined(base, name), base),
        components(joined(base, name)) == components(base) + pieces(name),
{
    reveal_strlit("/");
    assert("/"@ =~= seq!['/']);
    if base.last() == '/' {
        let front = base.drop_last();
        assert(base =~= front + seq!['/']);
        if front.len() == 0 {
            lemma_pieces_joined(front, name);
            assert(front + seq!['/'] + name =~= base + name);
            assert(pieces(front) + pieces(name) =~= pieces(name));
            lemma_pieces_joined(front, Seq::empty());
            assert(front + seq!['/'] + Seq::empty() =~= base);
            assert(components(base + name) =~= components(base) + pieces(name));
        } else {
            lemma_components_joined(front, name);
            law_separators(front, name);
            assert(front + seq!['/'] + name =~= base + name);
        }
    } else {
        lemma_components_joined(base, name);
    }
    assert(components(base) =~= (components(base) + pieces(name)).take(
        components(base).len() as int,
    ));
}

/// Behind the separator that stands last is a part without one.
proof fn lemma_behind_joined(front: Seq<char>, name: Seq<char>, separator: char)
    requires
        forall|i: int| 0 <= i < name.len() ==> name[i] != separator,
    ensures
        behind_last(front + seq![separator] + name, separator) == front.len() + 1,
    decreases name.len(),
{
    let whole = front + seq![separator] + name;
    if name.len() > 0 {
        lemma_behind_joined(front, name.drop_last(), separator);
        assert(whole.drop_last() =~= front + seq![separator] + name.drop_last());
        assert(whole.last() == name.last());
    } else {
        assert(whole.last() == separator);
    }
}

/// What lies in a directory has its name there, and the directory as its parent.
pub proof fn law_name_and_parent(base: Seq<char>, name: Seq<char>)
    requires
        base.len() > 0,
        base.last() != '/',
        name.len() > 0,
        forall|i: int| 0 <= i < name.len() ==> name[i] != '/',
        name != seq!['.'],
        name != seq!['.', '.'],
    ensures
        name_of(base + seq!['/'] + name) == Some(name),
        parent_of(base + seq!['/'] + name) == Some(tail_trimmed(base)),
{
    let path = base + seq!['/'] + name;
    lemma_behind_joined(base, name, '/');
    assert(path.skip((base.len() + 1) as int) =~= name);
    assert(path.take(base.len() as int) =~= base);
}

/// The extension of a file is what stands behind the last dot of its name, in lower
/// case; a dot in front of the name starts none.
pub proof fn law_extension(base: Seq<char>, stem: Seq<char>, ending: Seq<char>)
    requires
        base.len() > 0,
        base.last() != '/',
        stem.len() > 0,
        stem != seq!['.'],
        forall|i: int| 0 <= i < stem.len() ==> stem[i] != '/',
        forall|i: int| 0 <= i < ending.len() ==> ending[i] != '/' && ending[i] != '.',
        ending.len() > 0,
    ensures
        extension_of(base + seq!['/'] + (stem + seq!['.'] + ending)) == lowered(ending),
        extension_of(base + seq!['/'] + (seq!['.'] + ending)) == Seq::<char>::empty(),
{
    let name = stem + seq!['.'] + ending;
    assert forall|i: int| 0 <= i < name.len() implies name[i] != '/' by {
        if i < stem.len() {
            assert(name[i] == stem[i]);
        } else if i > stem.len() {
            assert(name[i] == ending[i - stem.len() - 1]);
        }
    }
    assert(name.len() >= 3);
    law_name_and_parent(base, name);
    lemma_behind_joined(stem, ending, '.');
    assert(name.skip((stem.len() + 1) as int) =~= ending);
    let hidden = seq!['.'] + ending;
    let nothing = Seq::<char>::empty();
    assert(hidden =~= nothing + seq!['.'] + ending);
    lemma_behind_joined(nothing, ending, '.');
    assert forall|i: int| 0 <= i < hidden.len() implies hidden[i] != '/' by {
        if i > 0 {
            assert(hidden[i] == ending[i - 1]);
        }
    }
    assert(hidden[1] == ending[0]);
    law_name_and_parent(base, hidden);
}

/// What follows the parts of a directory in a path below it is the rest of the path.
proof fn lemma_behind_pieces(front: Seq<char>, back: Seq<char>)
    ensures
        behind_pieces(front + seq!['/'] + back, pieces(front).len() as int) == behind_pieces(
            back,
            0,
        ),
    decreases front.len(),
{
    let whole = front + seq!['/'] + back;
    lemma_piece_end(front);
    lemma_first_of_joined(front, back);
    if front.len() == 0 {
        assert(whole[0] == '/');
        assert(first_piece(whole) =~= Seq::<char>::empty());
        assert(rest_of(whole) =~= back);
        assert(pieces(front).len() == 0);
    } else {
        let rest = rest_of(front);
        if piece_end(front) < front.len() {
            assert(rest_of(whole) =~= rest + seq!['/'] + back);
            lemma_behind_pieces(rest, back);
        } else {
            assert(rest_of(whole) =~= back);
            assert(pieces(rest).len() == 0);
        }
    }
}

/// The path of an entry of a directory, seen from the directory, is its name.
pub proof fn law_relative(base: Seq<char>, name: Seq<char>)
    requires
        base.len() > 0,
        base.last() != '/',
        components(base).len() > 0,
        name.len() > 0,
        forall|i: int| 0 <= i < name.len() ==> name[i] != '/',
        name != seq!['.'],
    ensures
        relative_to(base + seq!['/'] + name, base) == name,
{
    let path = base + seq!['/'] + name;
    lemma_components_joined(base, name);
    assert(components(base) =~= components(path).subrange(0, components(base).len() as int));
    lemma_behind_pieces(base, name);
    lemma_whole_piece(name);
    assert(first_piece(name) =~= name);
    lemma_no_separator(name);
}

proof fn lemma_whole_piece(text: Seq<char>)
    requires
        forall|i: int| 0 <= i < text.len() ==> text[i] != '/',
    ensures
        piece_end(text) == text.len(),
    decreases text.len(),
{
    if text.len() > 0 {
        lemma_whole_piece(text.drop_first());
    }
}

proof fn lemma_no_separator(text: Seq<char>)
    requires
        forall|i: int| 0 <= i < text.len() ==> text[i] != '/',
    ensures
        behind_last(text, '/') == 0,
    decreases text.len(),
{
    if text.len() > 0 {
        lemma_no_separator(text.drop_last());
    }
}

/// A directory is above what lies in it, and above itself; what is above another
/// directory is above all that lies there.
pub proof fn law_under(a: Seq<char>, b: Seq<char>, c: Seq<char>)
    ensures
        is_under(a, a),
        is_under(a, b) && is_under(b, c) ==> is_under(a, c),
        is_under(a, b) && is_under(b, a) ==> components(a) == components(b),
{
    assert(components(a).subrange(0, components(a).len() as int) =~= components(a));
    if is_under(a, b) && is_under(b, c) {
        assert(components(c) =~= components(a).subrange(0, components(c).len() as int));
    }
    if is_under(a, b) && is_under(b, a) {
        assert(components(a) =~= components(b));
    }
}

} // verus!
