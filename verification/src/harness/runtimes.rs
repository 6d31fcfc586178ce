//! Which installed .NET runtime a managed fixture runs under.

use vstd::prelude::*;

verus! {

/// White space, as Unicode defines it.
pub open spec fn is_white(c: char) -> bool {
    let n = c as u32;
    ||| 0x9 <= n <= 0xd
    ||| n == 0x20
    ||| n == 0x85
    ||| n == 0xa0
    ||| n == 0x1680
    ||| 0x2000 <= n <= 0x200a
    ||| n == 0x2028
    ||| n == 0x2029
    ||| n == 0x202f
    ||| n == 0x205f
    ||| n == 0x3000
}

/// Whether a character is white space.
pub fn white(c: char) -> (yes: bool)
    ensures
        yes == is_white(c),
{
    let n: u32 = c as u32;
    (0x9 <= n && n <= 0xd) || n == 0x20 || n == 0x85 || n == 0xa0 || n == 0x1680 || (0x2000 <= n
        && n <= 0x200a) || n == 0x2028 || n == 0x2029 || n == 0x202f || n == 0x205f || n == 0x3000
}

/// What stands between the occurrences of `at`, one piece more than there are
/// occurrences.
pub open spec fn pieces(text: Seq<char>, at: char) -> Seq<Seq<char>>
    decreases text.len(),
{
    if text.len() == 0 {
        seq![Seq::empty()]
    } else {
        let before = pieces(text.drop_last(), at);
        if text.last() == at {
            before.push(Seq::empty())
        } else {
            before.drop_last().push(before.last().push(text.last()))
        }
    }
}

/// What stands between white space.
pub open spec fn words(text: Seq<char>) -> Seq<Seq<char>>
    decreases text.len(),
{
    if text.len() == 0 {
        Seq::empty()
    } else {
        let before = words(text.drop_last());
        if is_white(text.last()) {
            before
        } else if text.len() == 1 || is_white(text[text.len() - 2]) {
            before.push(seq![text.last()])
        } else {
            before.drop_last().push(before.last().push(text.last()))
        }
    }
}

/// The views of pieces in a row.
pub open spec fn piece_views(found: Seq<Vec<char>>) -> Seq<Seq<char>> {
    found.map_values(|piece: Vec<char>| piece@)
}

fn split(text: &Vec<char>, at: char) -> (found: Vec<Vec<char>>)
    ensures
        piece_views(found@) == pieces(text@, at),
{
    let mut found: Vec<Vec<char>> = Vec::new();
    let mut piece: Vec<char> = Vec::new();
    let mut i: usize = 0;
    assert(piece_views(found@).push(piece@) =~= pieces(text@.take(0), at));
    while i < text.len()
        invariant
            i <= text@.len(),
            piece_views(found@).push(piece@) == pieces(text@.take(i as int), at),
        decreases text@.len() - i,
    {
        let c = text[i];
        let ghost before = piece_views(found@).push(piece@);
        i += 1;
        proof {
            let taken = text@.take(i as int);
            assert(taken.drop_last() =~= text@.take(i - 1));
            assert(taken.last() == c);
            assert(before.drop_last() =~= piece_views(found@));
            assert(before.last() == piece@);
        }
        if c == at {
            let ghost old_found = found@;
            let ghost old_piece = piece@;
            found.push(piece);
            piece = Vec::new();
            assert(piece_views(found@) =~= piece_views(old_found).push(old_piece));
            assert(piece@ =~= Seq::empty());
        } else {
            piece.push(c);
        }
        assert(piece_views(found@).push(piece@) =~= pieces(text@.take(i as int), at));
    }
    assert(text@.take(i as int) =~= text@);
    let ghost old_found = found@;
    let ghost old_piece = piece@;
    found.push(piece);
    assert(piece_views(found@) =~= piece_views(old_found).push(old_piece));
    found
}

proof fn lemma_words_len(text: Seq<char>)
    requires
        text.len() > 0,
        !is_white(text.last()),
    ensures
        words(text).len() > 0,
    decreases text.len(),
{
    if text.len() > 1 && !is_white(text[text.len() - 2]) {
        assert(text.drop_last().last() == text[text.len() - 2]);
        lemma_words_len(text.drop_last());
    }
}

fn split_words(text: &Vec<char>) -> (found: Vec<Vec<char>>)
    ensures
        piece_views(found@) == words(text@),
{
    let mut found: Vec<Vec<char>> = Vec::new();
    let mut i: usize = 0;
    assert(piece_views(found@) =~= words(text@.take(0)));
    while i < text.len()
        invariant
            i <= text@.len(),
            piece_views(found@) == words(text@.take(i as int)),
        decreases text@.len() - i,
    {
        let ghost before = piece_views(found@);
        let c = text[i];
        let starts = i == 0 || white(text[i - 1]);
        i += 1;
        proof {
            let taken = text@.take(i as int);
            assert(taken.drop_last() =~= text@.take(i - 1));
            assert(taken.last() == c);
            if i > 1 {
                assert(taken[taken.len() - 2] == text@[i - 2]);
            }
        }
        if !white(c) {
            if starts {
                let mut word: Vec<char> = Vec::new();
                word.push(c);
                let ghost old_found = found@;
                let ghost old_word = word@;
                found.push(word);
                assert(old_word =~= seq![c]);
                assert(piece_views(found@) =~= piece_views(old_found).push(old_word));
            } else {
                proof {
                    assert(text@.take(i - 1).last() == text@[i - 2]);
                    lemma_words_len(text@.take(i - 1));
                }
                match found.pop() {
                    None => {},
                    Some(word) => {
                        let mut word = word;
                        let ghost old_found = found@;
                        assert(before.drop_last() =~= piece_views(old_found));
                        assert(before.last() == word@);
                        word.push(c);
                        let ghost old_word = word@;
                        found.push(word);
                        assert(piece_views(found@) =~= piece_views(old_found).push(old_word));
                    },
                }
            }
        }
        assert(piece_views(found@) =~= words(text@.take(i as int)));
    }
    assert(text@.take(i as int) =~= text@);
    found
}

/// The value of a decimal digit.
pub open spec fn digit_value(c: char) -> Option<nat> {
    if '0' <= c <= '9' {
        Some((c as u32 - 48) as nat)
    } else {
        None
    }
}

/// The value of digits in a row.
pub open spec fn digits_value(text: Seq<char>) -> Option<nat>
    decreases text.len(),
{
    if text.len() == 0 {
        Some(0)
    } else {
        match (digits_value(text.drop_last()), digit_value(text.last())) {
            (Some(high), Some(low)) => Some(high * 10 + low),
            _ => None,
        }
    }
}

/// The number that a text stands for: digits, perhaps behind a plus sign, of a
/// value that 32 bits hold.
pub open spec fn number(text: Seq<char>) -> Option<u32> {
    let digits = if text.len() > 1 && text[0] == '+' {
        text.skip(1)
    } else {
        text
    };
    match digits_value(digits) {
        Some(value) => if digits.len() > 0 && value <= u32::MAX {
            Some(value as u32)
        } else {
            None
        },
        None => None,
    }
}

proof fn lemma_digits_prefix(text: Seq<char>, i: int)
    requires
        0 <= i <= text.len(),
    ensures
        digits_value(text.take(i)) is None ==> digits_value(text) is None,
        digits_value(text) is Some ==> digits_value(text.take(i))->0 <= digits_value(text)->0,
    decreases text.len(),
{
    if i < text.len() {
        lemma_digits_prefix(text.drop_last(), i);
        assert(text.drop_last().take(i) =~= text.take(i));
    } else {
        assert(text.take(i) =~= text);
    }
}

fn parse_number(text: &Vec<char>) -> (value: Option<u32>)
    ensures
        value == number(text@),
{
    let start: usize = if text.len() > 1 && text[0] == '+' {
        1
    } else {
        0
    };
    let ghost digits = text@.skip(start as int);
    assert(text@.skip(0) =~= text@);
    if text.len() == start {
        return None;
    }
    let mut value: u64 = 0;
    let mut i: usize = start;
    assert(digits.take(0) =~= Seq::empty());
    while i < text.len()
        invariant
            start <= i <= text@.len(),
            digits == text@.skip(start as int),
            digits.len() > 0,
            digits == if text@.len() > 1 && text@[0] == '+' {
                text@.skip(1)
            } else {
                text@
            },
            value <= u32::MAX,
            digits_value(digits.take(i - start)) == Some(value as nat),
        decreases text@.len() - i,
    {
        let c = text[i];
        proof {
            let taken = digits.take(i + 1 - start);
            assert(taken.drop_last() =~= digits.take(i - start));
            assert(taken.last() == c);
            lemma_digits_prefix(digits, i + 1 - start);
        }
        if !('0' <= c && c <= '9') {
            return None;
        }
        value = value * 10 + (c as u32 - 48) as u64;
        if value > u32::MAX as u64 {
            return None;
        }
        i += 1;
    }
    assert(digits.take(i - start) =~= digits);
    Some(value as u32)
}

/// The version that a text stands for: three numbers between dots.
pub open spec fn version(text: Seq<char>) -> Option<(u32, u32, u32)> {
    let parts = pieces(text, '.');
    if parts.len() != 3 {
        None
    } else {
        match (number(parts[0]), number(parts[1]), number(parts[2])) {
            (Some(major), Some(minor), Some(patch)) => Some((major, minor, patch)),
            _ => None,
        }
    }
}

/// Whether one version is at least another.
pub open spec fn at_least(one: (u32, u32, u32), other: (u32, u32, u32)) -> bool {
    one.0 > other.0 || (one.0 == other.0 && (one.1 > other.1 || (one.1 == other.1 && one.2
        >= other.2)))
}

fn parse_version(text: &Vec<char>) -> (found: Option<(u32, u32, u32)>)
    ensures
        found == version(text@),
{
    let parts = split(text, '.');
    assert(piece_views(parts@).len() == parts@.len());
    if parts.len() != 3 {
        return None;
    }
    assert(piece_views(parts@)[0] == parts@[0]@);
    assert(piece_views(parts@)[1] == parts@[1]@);
    assert(piece_views(parts@)[2] == parts@[2]@);
    match (parse_number(&parts[0]), parse_number(&parts[1]), parse_number(&parts[2])) {
        (Some(major), Some(minor), Some(patch)) => Some((major, minor, patch)),
        _ => None,
    }
}

/// A listed runtime.
#[verifier::ext_equal]
pub struct RuntimeView {
    pub version: (u32, u32, u32),
    pub name: Seq<char>,
}

/// The core runtime that a line of the list names.
pub open spec fn runtime_of(line: Seq<char>) -> Option<RuntimeView> {
    let found = words(line);
    if found.len() < 2 || found[0] != "Microsoft.NETCore.App"@ {
        None
    } else {
        match version(found[1]) {
            None => None,
            Some(version) => Some(RuntimeView { version, name: found[1] }),
        }
    }
}

/// The newest core runtime that the lines name; among equal ones the last.
pub open spec fn newest(lines: Seq<Seq<char>>) -> Option<RuntimeView>
    decreases lines.len(),
{
    if lines.len() == 0 {
        None
    } else {
        match (newest(lines.drop_last()), runtime_of(lines.last())) {
            (best, None) => best,
            (None, found) => found,
            (Some(best), Some(found)) => if at_least(found.version, best.version) {
                Some(found)
            } else {
                Some(best)
            },
        }
    }
}

/// A runtime in the list: its version, and how the list writes it.
struct Runtime {
    version: (u32, u32, u32),
    name: Vec<char>,
}

spec fn runtime_view(found: Option<Runtime>) -> Option<RuntimeView> {
    match found {
        None => None,
        Some(found) => Some(RuntimeView { version: found.version, name: found.name@ }),
    }
}

fn chars_of(text: &str) -> (chars: Vec<char>)
    ensures
        chars@ == text@,
{
    let len: usize = text.unicode_len();
    let mut chars: Vec<char> = Vec::new();
    let mut i: usize = 0;
    while i < len
        invariant
            i <= len,
            len == text@.len(),
            chars@ == text@.take(i as int),
        decreases len - i,
    {
        chars.push(text.get_char(i));
        i += 1;
        assert(chars@ =~= text@.take(i as int));
    }
    assert(text@.take(i as int) =~= text@);
    chars
}

fn same_chars(one: &Vec<char>, other: &Vec<char>) -> (same: bool)
    ensures
        same == (one@ == other@),
{
    if one.len() != other.len() {
        return false;
    }
    let mut i: usize = 0;
    while i < one.len()
        invariant
            i <= one@.len(),
            one@.len() == other@.len(),
            forall|k: int| 0 <= k < i ==> one@[k] == other@[k],
        decreases one@.len() - i,
    {
        if one[i] != other[i] {
            assert(one@[i as int] != other@[i as int]);
            return false;
        }
        i += 1;
    }
    assert(one@ =~= other@);
    true
}

fn runtime(line: &Vec<char>) -> (found: Option<Runtime>)
    ensures
        runtime_view(found) == runtime_of(line@),
{
    let mut found = split_words(line);
    assert(piece_views(found@).len() == found@.len());
    if found.len() < 2 {
        return None;
    }
    assert(piece_views(found@)[0] == found@[0]@);
    assert(piece_views(found@)[1] == found@[1]@);
    let core = chars_of("Microsoft.NETCore.App");
    if !same_chars(&found[0], &core) {
        return None;
    }
    match parse_version(&found[1]) {
        None => None,
        Some(version) => {
            let name = found.swap_remove(1);
            Some(Runtime { version, name })
        },
    }
}

/// The version of the newest core runtime in the output of
/// `dotnet --list-runtimes`.
pub fn latest_runtime(text: &str) -> (found: Option<String>)
    ensures
        match newest(pieces(text@, '\n')) {
            None => found is None,
            Some(best) => found matches Some(name) && name@ == best.name,
        },
{
    let chars = chars_of(text);
    let lines = split(&chars, '\n');
    let ghost views = piece_views(lines@);
    let mut best: Option<Runtime> = None;
    let mut i: usize = 0;
    assert(views.take(0) =~= Seq::empty());
    while i < lines.len()
        invariant
            i <= lines@.len(),
            views == piece_views(lines@),
            runtime_view(best) == newest(views.take(i as int)),
        decreases lines@.len() - i,
    {
        assert(views[i as int] == lines@[i as int]@);
        let found = runtime(&lines[i]);
        i += 1;
        proof {
            let taken = views.take(i as int);
            assert(taken.drop_last() =~= views.take(i - 1));
            assert(taken.last() == views[i - 1]);
        }
        best = match (best, found) {
            (best, None) => best,
            (None, found) => found,
            (Some(one), Some(other)) => {
                let a = other.version;
                let b = one.version;
                if a.0 > b.0 || (a.0 == b.0 && (a.1 > b.1 || (a.1 == b.1 && a.2 >= b.2))) {
                    Some(other)
                } else {
                    Some(one)
                }
            },
        };
    }
    assert(views.take(i as int) =~= views);
    match best {
        None => None,
        Some(best) => {
            let mut name = String::new();
            let mut k: usize = 0;
            while k < best.name.len()
                invariant
                    k <= best.name@.len(),
                    name@ == best.name@.take(k as int),
                decreases best.name@.len() - k,
            {
                name.push(best.name[k]);
                k += 1;
                assert(name@ =~= best.name@.take(k as int));
            }
            assert(best.name@.take(k as int) =~= best.name@);
            Some(name)
        },
    }
}

/// The newest runtime is at least as new as every other one in the list.
pub proof fn newest_is_newest(lines: Seq<Seq<char>>, i: int)
    requires
        0 <= i < lines.len(),
        runtime_of(lines[i]) is Some,
    ensures
        newest(lines) is Some,
        at_least(newest(lines)->0.version, runtime_of(lines[i])->0.version),
        exists|k: int|
            0 <= k < lines.len() && newest(lines) == #[trigger] runtime_of(lines[k]),
    decreases lines.len(),
{
    let before = lines.drop_last();
    let last = lines.len() - 1;
    if i < last {
        assert(before[i] == lines[i]);
        newest_is_newest(before, i);
        let k = choose|k: int| 0 <= k < before.len() && newest(before) == #[trigger] runtime_of(before[k]);
        assert(newest(before) == runtime_of(lines[k]));
        assert(newest(lines) == runtime_of(lines[k]) || newest(lines) == runtime_of(lines[last]));
    } else if newest(before) is Some {
        lemma_newest_from(before);
        let k = choose|k: int| 0 <= k < before.len() && newest(before) == #[trigger] runtime_of(before[k]);
        assert(newest(before) == runtime_of(lines[k]));
        assert(newest(lines) == runtime_of(lines[k]) || newest(lines) == runtime_of(lines[last]));
    } else {
        assert(newest(lines) == runtime_of(lines[last]));
    }
}

proof fn lemma_newest_from(lines: Seq<Seq<char>>)
    requires
        newest(lines) is Some,
    ensures
        exists|k: int|
            0 <= k < lines.len() && newest(lines) == #[trigger] runtime_of(lines[k]),
    decreases lines.len(),
{
    let before = lines.drop_last();
    let last = lines.len() - 1;
    if newest(before) is Some {
        lemma_newest_from(before);
        let k = choose|k: int| 0 <= k < before.len() && newest(before) == #[trigger] runtime_of(before[k]);
        assert(newest(before) == runtime_of(lines[k]));
        assert(newest(lines) == runtime_of(lines[k]) || newest(lines) == runtime_of(lines[last]));
    } else {
        assert(newest(lines) == runtime_of(lines[last]));
    }
}

} // verus!
