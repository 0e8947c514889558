//! Entry names inside a bundle, read as slash-separated paths.
//!
//! A name such as `project/fonts/serif.otf` is a sequence of components
//! (`project`, `fonts`, `serif.otf`). Empty pieces, as a leading, trailing or
//! doubled `/` leaves them, are not components; nor is a `.`, unless the path
//! begins with it.

use vstd::prelude::*;

verus! {

/// Whether a piece between two `/` counts as a component after the
/// components `done`: it is not empty, and it is not a `.` behind another
/// component.
pub open spec fn counts(done: Seq<Seq<char>>, piece: Seq<char>) -> bool {
    piece.len() > 0 && !(piece == seq!['.'] && done.len() > 0)
}

/// Adds a piece to the finished components, if it counts as one.
pub open spec fn close_component(done: Seq<Seq<char>>, open: Seq<char>) -> Seq<Seq<char>> {
    if counts(done, open) {
        done.push(open)
    } else {
        done
    }
}

/// Reads `path` from left to right: the components that a `/` has ended, and
/// the characters read since the last `/`.
pub open spec fn scan(path: Seq<char>) -> (Seq<Seq<char>>, Seq<char>)
    decreases path.len(),
{
    if path.len() == 0 {
        (Seq::empty(), Seq::empty())
    } else {
        let before = scan(path.drop_last());
        if path.last() == '/' {
            (close_component(before.0, before.1), Seq::empty())
        } else {
            (before.0, before.1.push(path.last()))
        }
    }
}

/// The components of a path.
pub open spec fn components(path: Seq<char>) -> Seq<Seq<char>> {
    close_component(scan(path).0, scan(path).1)
}

/// Whether `parts` begins with all of `prefix`, component by component.
pub open spec fn has_prefix(parts: Seq<Seq<char>>, prefix: Seq<Seq<char>>) -> bool {
    prefix.len() <= parts.len() && parts.take(prefix.len() as int) == prefix
}

/// `parts` without a leading `prefix`; a path that does not begin with the
/// prefix is left as it is.
pub open spec fn relative_to(parts: Seq<Seq<char>>, prefix: Seq<Seq<char>>) -> Seq<Seq<char>> {
    if has_prefix(parts, prefix) {
        parts.skip(prefix.len() as int)
    } else {
        parts
    }
}

/// Whether a file name ends in a dot and `ext`, with something before the dot.
/// For an `ext` without a dot in it this is the name's extension being `ext`:
/// a name that only starts with a dot, such as `.typ`, has no extension.
pub open spec fn has_extension(file_name: Seq<char>, ext: Seq<char>) -> bool {
    let n = file_name.len() as int;
    let k = ext.len() as int;
    n > k + 1 && file_name[n - k - 1] == '.' && file_name.subrange(n - k, n) == ext
}

/// The components written out again with a `/` between them.
pub open spec fn joined(parts: Seq<Seq<char>>) -> Seq<char>
    decreases parts.len(),
{
    if parts.len() == 0 {
        Seq::empty()
    } else if parts.len() == 1 {
        parts[0]
    } else {
        joined(parts.drop_last()) + seq!['/'] + parts.last()
    }
}

/// The views of a list of character vectors.
pub open spec fn part_views(parts: Seq<Vec<char>>) -> Seq<Seq<char>> {
    parts.map_values(|p: Vec<char>| p@)
}

/// Appends one character to a string.
///
/// Wraps `String::push`, which std documents as appending the given char to
/// the end of the string.
#[verifier::external_body]
fn push_char(text: &mut String, c: char)
    ensures
        final(text)@ == old(text)@.push(c),
{
    text.push(c)
}

/// The characters of a string, one by one.
pub fn to_chars(text: &str) -> (chars: Vec<char>)
    ensures
        chars@ == text@,
{
    let mut chars: Vec<char> = Vec::new();
    for c in it: text.chars()
        invariant
            it.seq() == text@,
            chars@ == text@.take(it.index() as int),
    {
        chars.push(c);
    }
    chars
}

/// Whether two character vectors hold the same text.
pub fn same_chars(a: &Vec<char>, b: &Vec<char>) -> (same: bool)
    ensures
        same == (a@ == b@),
{
    if a.len() != b.len() {
        return false;
    }
    let mut i: usize = 0;
    while i < a.len()
        invariant
            i <= a.len(),
            a.len() == b.len(),
            a@.take(i as int) == b@.take(i as int),
        decreases a.len() - i,
    {
        if a[i] != b[i] {
            return false;
        }
        assert(a@.take(i + 1) == a@.take(i as int).push(a@[i as int]));
        assert(b@.take(i + 1) == b@.take(i as int).push(b@[i as int]));
        i += 1;
    }
    assert(a@.take(a.len() as int) == a@);
    assert(b@.take(b.len() as int) == b@);
    true
}

/// Whether `file_name` has the extension `ext`.
pub fn ends_with_extension(file_name: &Vec<char>, ext: &Vec<char>) -> (found: bool)
    ensures
        found == has_extension(file_name@, ext@),
{
    let n = file_name.len();
    let k = ext.len();
    if n <= k || n - k < 2 {
        return false;
    }
    if file_name[n - k - 1] != '.' {
        return false;
    }
    let mut i: usize = 0;
    while i < k
        invariant
            i <= k,
            k == ext.len(),
            n == file_name.len(),
            n > k + 1,
            file_name@.subrange(n - k, n - k + i) == ext@.take(i as int),
        decreases k - i,
    {
        if file_name[n - k + i] != ext[i] {
            assert(file_name@.subrange(n - k, n as int)[i as int] != ext@[i as int]);
            return false;
        }
        assert(file_name@.subrange(n - k, n - k + i + 1) == file_name@.subrange(
            n - k,
            n - k + i,
        ).push(file_name@[n - k + i]));
        assert(ext@.take(i + 1) == ext@.take(i as int).push(ext@[i as int]));
        i += 1;
    }
    assert(ext@.take(k as int) == ext@);
    true
}

/// Whether `piece` counts as a component after the components `done`.
fn piece_counts(done: &Vec<Vec<char>>, piece: &Vec<char>) -> (kept: bool)
    ensures
        kept == counts(part_views(done@), piece@),
{
    if piece.len() == 0 {
        return false;
    }
    if piece.len() == 1 && piece[0] == '.' && done.len() > 0 {
        assert(piece@ == seq!['.']);
        return false;
    }
    assert(piece@ == seq!['.'] ==> piece@.len() == 1 && piece@[0] == '.');
    true
}

/// A bundle entry's name, split into its components.
#[derive(Debug)]
pub struct EntryPath {
    pub parts: Vec<Vec<char>>,
}

impl View for EntryPath {
    type V = Seq<Seq<char>>;

    open spec fn view(&self) -> Seq<Seq<char>> {
        part_views(self.parts@)
    }
}

impl EntryPath {
    /// Splits a name at each `/`.
    pub fn parse(name: &str) -> (path: EntryPath)
        ensures
            path@ == components(name@),
    {
        let mut parts: Vec<Vec<char>> = Vec::new();
        let mut open: Vec<char> = Vec::new();
        for c in it: name.chars()
            invariant
                it.seq() == name@,
                (part_views(parts@), open@) == scan(name@.take(it.index() as int)),
        {
            proof {
                let i = it.index() as int;
                assert(name@.take(i + 1).drop_last() == name@.take(i));
                assert(name@.take(i + 1).last() == c);
            }
            if c == '/' {
                if piece_counts(&parts, &open) {
                    proof {
                        assert(part_views(parts@.push(open)) == part_views(parts@).push(open@));
                    }
                    parts.push(open);
                }
                open = Vec::new();
            } else {
                open.push(c);
            }
        }
        assert(name@.take(name@.len() as int) == name@);
        if piece_counts(&parts, &open) {
            proof {
                assert(part_views(parts@.push(open)) == part_views(parts@).push(open@));
            }
            parts.push(open);
        }
        EntryPath { parts }
    }

    /// Whether the path begins with all of `prefix`.
    pub fn starts_with(&self, prefix: &EntryPath) -> (found: bool)
        ensures
            found == has_prefix(self@, prefix@),
    {
        let k = prefix.parts.len();
        if k > self.parts.len() {
            return false;
        }
        let mut i: usize = 0;
        while i < k
            invariant
                i <= k,
                k == prefix.parts.len(),
                k <= self.parts.len(),
                self@.take(i as int) == prefix@.take(i as int),
            decreases k - i,
        {
            if !same_chars(&self.parts[i], &prefix.parts[i]) {
                assert(self@.take(k as int)[i as int] != prefix@[i as int]);
                return false;
            }
            assert(self@.take(i + 1) == self@.take(i as int).push(self@[i as int]));
            assert(prefix@.take(i + 1) == prefix@.take(i as int).push(prefix@[i as int]));
            i += 1;
        }
        assert(prefix@.take(k as int) == prefix@);
        true
    }

    /// The path below `prefix`, or the whole path where it does not begin
    /// with the prefix.
    pub fn strip_prefix(self, prefix: &EntryPath) -> (rest: EntryPath)
        ensures
            rest@ == relative_to(self@, prefix@),
    {
        if !self.starts_with(prefix) {
            return self;
        }
        let k = prefix.parts.len();
        let mut parts = self.parts;
        let rest = parts.split_off(k);
        assert(part_views(rest@) == part_views(parts@ + rest@).skip(k as int));
        EntryPath { parts: rest }
    }

    /// Whether the first component is exactly `name`.
    pub fn first_is(&self, name: &str) -> (found: bool)
        ensures
            found == (self@.len() > 0 && self@[0] == name@),
    {
        if self.parts.len() == 0 {
            return false;
        }
        let wanted = to_chars(name);
        same_chars(&self.parts[0], &wanted)
    }

    /// Whether the path is the single component `name`.
    pub fn is_only(&self, name: &str) -> (found: bool)
        ensures
            found == (self@.len() == 1 && self@[0] == name@),
    {
        self.parts.len() == 1 && self.first_is(name)
    }

    /// Whether the last component has the extension `ext`.
    pub fn has_extension(&self, ext: &str) -> (found: bool)
        ensures
            found == (self@.len() > 0 && has_extension(self@.last(), ext@)),
    {
        let n = self.parts.len();
        if n == 0 {
            return false;
        }
        let wanted = to_chars(ext);
        ends_with_extension(&self.parts[n - 1], &wanted)
    }

    /// The path as text, its components joined by `/`.
    pub fn to_text(&self) -> (text: String)
        ensures
            text@ == joined(self@),
    {
        let mut text = String::new();
        let mut i: usize = 0;
        while i < self.parts.len()
            invariant
                i <= self.parts.len(),
                text@ == joined(self@.take(i as int)),
            decreases self.parts.len() - i,
        {
            let ghost before = text@;
            if i > 0 {
                push_char(&mut text, '/');
            }
            let part = &self.parts[i];
            let ghost base = text@;
            let mut j: usize = 0;
            while j < part.len()
                invariant
                    j <= part.len(),
                    text@ == base + part@.take(j as int),
                decreases part.len() - j,
            {
                push_char(&mut text, part[j]);
                assert(part@.take(j + 1) == part@.take(j as int).push(part@[j as int]));
                j += 1;
            }
            proof {
                assert(part@.take(part.len() as int) == part@);
                let upto = self@.take(i + 1);
                assert(upto.drop_last() == self@.take(i as int));
                assert(upto.last() == part@);
                if i > 0 {
                    assert(base == before + seq!['/']);
                } else {
                    assert(before == Seq::<char>::empty());
                    assert(base + part@ == part@);
                }
            }
            i += 1;
        }
        assert(self@.take(self.parts.len() as int) == self@);
        text
    }
}

} // verus!
