//! Paths as character sequences: file name, stem, extension and parent.
//!
//! A path is text with `/` between its components. What follows the last `/`
//! is the file name; a path that ends in `/` names a directory and has none.

use crate::text::{
    chars_of, last_index_of, lemma_last_index_of, lemma_last_index_of_tail,
    lemma_last_index_of_unique, push_char, push_range, text_of,
};
use vstd::prelude::*;

verus! {

/// The part of `path` after its last separator.
pub open spec fn file_name(path: Seq<char>) -> Seq<char> {
    path.subrange(last_index_of(path, '/') + 1, path.len() as int)
}

/// The part of `path` up to and including its last separator; empty where
/// `path` has none.
pub open spec fn parent(path: Seq<char>) -> Seq<char> {
    path.subrange(0, last_index_of(path, '/') + 1)
}

/// Whether a file name ends in an extension: it has a dot that is not its
/// first character, and it is not the parent link `..`.
pub open spec fn name_has_extension(name: Seq<char>) -> bool {
    last_index_of(name, '.') > 0 && name != seq!['.', '.']
}

/// The extension of `path`: what follows the last dot of its file name.
pub open spec fn extension(path: Seq<char>) -> Option<Seq<char>> {
    let name = file_name(path);
    if name_has_extension(name) {
        Some(name.subrange(last_index_of(name, '.') + 1, name.len() as int))
    } else {
        None
    }
}

/// The file name of `path` without its extension and the dot before it.
pub open spec fn file_stem(path: Seq<char>) -> Seq<char> {
    let name = file_name(path);
    if name_has_extension(name) {
        name.subrange(0, last_index_of(name, '.'))
    } else {
        name
    }
}

/// A path is its parent followed by its file name, and the name holds no separator.
pub proof fn lemma_parent_and_name(path: Seq<char>)
    ensures
        parent(path) + file_name(path) == path,
        forall|i: int| 0 <= i < file_name(path).len() ==> file_name(path)[i] != '/',
        parent(path).len() > 0 ==> parent(path).last() == '/',
{
    lemma_last_index_of(path, '/');
    assert(parent(path) + file_name(path) =~= path);
}

/// Whether `extension` can end a file name as its extension: it is not
/// empty and holds neither a dot nor a separator.
pub open spec fn is_plain(extension: Seq<char>) -> bool {
    &&& extension.len() > 0
    &&& forall|i: int| 0 <= i < extension.len() ==> #[trigger] extension[i] != '.' && extension[i] != '/'
}

/// A directory with a separator at its end, so that a file name can follow.
/// The empty directory stays empty: names after it are relative.
pub open spec fn rooted(dir: Seq<char>) -> Seq<char> {
    if dir.len() == 0 || dir.last() == '/' {
        dir
    } else {
        dir.push('/')
    }
}

/// Where the converted copy of `source` goes: under `dest_dir`, or beside
/// `source` where none is given, with the stem of `source` and `target` as
/// its extension.
pub open spec fn destination(
    source: Seq<char>,
    target: Seq<char>,
    dest_dir: Option<Seq<char>>,
) -> Seq<char> {
    let dir = match dest_dir {
        Some(d) => rooted(d),
        None => parent(source),
    };
    dir + file_stem(source) + seq!['.'] + target
}

/// Where the parts of a path lie among its characters.
pub(crate) struct Split {
    /// Index of the first character of the file name.
    pub name_start: usize,
    /// Index one past the last character of the stem.
    pub stem_end: usize,
    /// Whether a dot and an extension follow the stem.
    pub has_extension: bool,
}

impl Split {
    /// Whether `self` describes `path`.
    pub(crate) open spec fn describes(self, path: Seq<char>) -> bool {
        let len = path.len() as int;
        &&& self.name_start <= self.stem_end <= len
        &&& path.subrange(0, self.name_start as int) == parent(path)
        &&& path.subrange(self.name_start as int, len) == file_name(path)
        &&& path.subrange(self.name_start as int, self.stem_end as int) == file_stem(path)
        &&& self.has_extension == (extension(path) is Some)
        &&& self.has_extension ==> self.stem_end < len && path.subrange(
            self.stem_end as int + 1,
            len,
        ) == extension(path)->0
    }
}

/// Index one past the last `c` in `chars[..end]`, or 0 where there is none.
fn after_last(chars: &Vec<char>, end: usize, c: char) -> (at: usize)
    requires
        end <= chars.len(),
    ensures
        at == last_index_of(chars@.subrange(0, end as int), c) + 1,
{
    let mut i: usize = end;
    while i > 0
        invariant
            i <= end <= chars.len(),
            last_index_of(chars@.subrange(0, end as int), c) == last_index_of(
                chars@.subrange(0, i as int),
                c,
            ),
        decreases i,
    {
        if chars[i - 1] == c {
            return i;
        }
        assert(chars@.subrange(0, i as int).drop_last() =~= chars@.subrange(0, i as int - 1));
        i -= 1;
    }
    i
}

/// Finds the file name, the stem and the extension of a path.
pub(crate) fn split(chars: &Vec<char>) -> (parts: Split)
    ensures
        parts.describes(chars@),
{
    let len = chars.len();
    let name_start = after_last(chars, len, '/');
    let dot_end = after_last(chars, len, '.');
    let ghost name = file_name(chars@);
    proof {
        assert(chars@.subrange(0, len as int) =~= chars@);
        lemma_last_index_of(chars@, '/');
        lemma_last_index_of(chars@, '.');
        lemma_last_index_of_tail(chars@, '.', name_start as int);
    }
    let is_parent_link = len - name_start == 2 && chars[name_start] == '.' && chars[name_start + 1]
        == '.';
    proof {
        if is_parent_link {
            assert(name =~= seq!['.', '.']);
        } else if name == seq!['.', '.'] {
            assert(name.len() == 2);
            assert(name[0] == '.' && name[1] == '.');
        }
    }
    if dot_end > name_start && dot_end - 1 > name_start && !is_parent_link {
        let parts = Split { name_start, stem_end: dot_end - 1, has_extension: true };
        proof {
            let dot = last_index_of(name, '.');
            assert(chars@.subrange(name_start as int, dot_end as int - 1) =~= name.subrange(0, dot));
            assert(chars@.subrange(dot_end as int, len as int) =~= name.subrange(
                dot + 1,
                name.len() as int,
            ));
        }
        parts
    } else {
        Split { name_start, stem_end: len, has_extension: false }
    }
}

/// The file name of `path`.
pub fn file_name_of(path: &str) -> (name: String)
    ensures
        name@ == file_name(path@),
{
    let chars = chars_of(path);
    let parts = split(&chars);
    text_of(&chars, parts.name_start, chars.len())
}

/// The file name of `path` without its extension.
pub fn file_stem_of(path: &str) -> (stem: String)
    ensures
        stem@ == file_stem(path@),
{
    let chars = chars_of(path);
    let parts = split(&chars);
    text_of(&chars, parts.name_start, parts.stem_end)
}

/// The extension of `path`, as written.
pub fn extension_of(path: &str) -> (ext: Option<String>)
    ensures
        ext is Some <==> extension(path@) is Some,
        ext matches Some(e) ==> e@ == extension(path@)->0,
{
    let chars = chars_of(path);
    let parts = split(&chars);
    if parts.has_extension {
        Some(text_of(&chars, parts.stem_end + 1, chars.len()))
    } else {
        None
    }
}

/// Checks `is_plain`.
pub fn check_plain(extension: &str) -> (plain: bool)
    ensures
        plain == is_plain(extension@),
{
    let chars = chars_of(extension);
    if chars.len() == 0 {
        return false;
    }
    let mut i: usize = 0;
    while i < chars.len()
        invariant
            i <= chars.len(),
            chars@ == extension@,
            forall|j: int| 0 <= j < i ==> #[trigger] chars@[j] != '.' && chars@[j] != '/',
        decreases chars.len() - i,
    {
        if chars[i] == '.' || chars[i] == '/' {
            return false;
        }
        i += 1;
    }
    true
}

/// The view of an optional directory.
pub open spec fn dir_view(dir: Option<&str>) -> Option<Seq<char>> {
    match dir {
        Some(d) => Some(d@),
        None => None,
    }
}

/// Computes where the converted copy of `source` goes.
pub fn destination_path(source: &str, target: &str, dest_dir: Option<&str>) -> (dest: String)
    ensures
        dest@ == destination(source@, target@, dir_view(dest_dir)),
{
    let chars = chars_of(source);
    let parts = split(&chars);
    let mut dest = match dest_dir {
        Some(dir) => {
            let dir_chars = chars_of(dir);
            let n = dir_chars.len();
            let mut rooted_dir = text_of(&dir_chars, 0, n);
            assert(dir_chars@.subrange(0, n as int) =~= dir@);
            if n > 0 && dir_chars[n - 1] != '/' {
                push_char(&mut rooted_dir, '/');
            }
            rooted_dir
        },
        None => text_of(&chars, 0, parts.name_start),
    };
    let ghost dir_part = dest@;
    push_range(&mut dest, &chars, parts.name_start, parts.stem_end);
    push_char(&mut dest, '.');
    let target_chars = chars_of(target);
    push_range(&mut dest, &target_chars, 0, target_chars.len());
    proof {
        assert(target_chars@.subrange(0, target_chars.len() as int) =~= target@);
        assert(dest@ =~= dir_part + file_stem(source@) + seq!['.'] + target@);
    }
    dest
}

/// A converted copy carries the target as its extension: the extension of the
/// destination is the target, unless the source has an empty stem, in which
/// case the destination is a dot file without an extension.
pub proof fn lemma_destination_extension(
    source: Seq<char>,
    target: Seq<char>,
    dest_dir: Option<Seq<char>>,
)
    requires
        is_plain(target),
    ensures
        file_name(destination(source, target, dest_dir)) == file_stem(source) + seq!['.'] + target,
        extension(destination(source, target, dest_dir)) == if file_stem(source).len() > 0 {
            Some(target)
        } else {
            None
        },
{
    let dir = match dest_dir {
        Some(d) => rooted(d),
        None => parent(source),
    };
    let stem = file_stem(source);
    let name = stem + seq!['.'] + target;
    let dest = destination(source, target, dest_dir);
    lemma_parent_and_name(source);
    lemma_last_index_of(file_name(source), '.');
    assert forall|j: int| 0 <= j < stem.len() implies stem[j] != '/' by {
        assert(stem[j] == file_name(source)[j]);
    }
    assert(dest =~= dir + name);
    assert forall|j: int| dir.len() - 1 < j < dest.len() implies dest[j] != '/' by {
        let k = j - dir.len();
        assert(dest[j] == name[k]);
        if k < stem.len() {
            assert(name[k] == stem[k]);
        } else if k > stem.len() {
            assert(name[k] == target[k - stem.len() - 1]);
        }
    }
    lemma_last_index_of_unique(dest, '/', dir.len() - 1);
    assert(file_name(dest) =~= name);
    assert forall|j: int| stem.len() < j < name.len() implies name[j] != '.' by {
        assert(name[j] == target[j - stem.len() - 1]);
    }
    lemma_last_index_of_unique(name, '.', stem.len() as int);
    assert(name.last() == target.last());
    assert(name != seq!['.', '.']) by {
        if name == seq!['.', '.'] {
            assert(name.last() == seq!['.', '.'][1]);
        }
    }
    if stem.len() > 0 {
        assert(name.subrange(stem.len() as int + 1, name.len() as int) =~= target);
    }
}

} // verus!
