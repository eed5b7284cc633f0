//! Where a block, or a run of merged blocks, lies inside an archive.

use crate::block::BlockIndex;
use crate::text::{same_text, texts};
use vstd::prelude::*;
use vstd::string::{StrSliceExecFns, StringExecFns};

verus! {

/// The path `relative` as seen from the directory `base`. An absolute path
/// stands for itself.
pub open spec fn path_joined(base: Seq<char>, relative: Seq<char>) -> Seq<char> {
    if relative.len() > 0 && relative[0] == '/' {
        relative
    } else if base.len() == 0 || base.last() == '/' {
        base + relative
    } else {
        base + "/"@ + relative
    }
}

/// Joins two paths.
pub fn join_path(base: &str, relative: &str) -> (path: String)
    ensures
        path@ == path_joined(base@, relative@),
{
    if relative.unicode_len() > 0 && relative.get_char(0) == '/' {
        return relative.to_owned();
    }
    let mut path = base.to_owned();
    let n = base.unicode_len();
    if n > 0 && base.get_char(n - 1) != '/' {
        path.append("/");
    }
    path.append(relative);
    path
}

/// The names in `parts` with slashes between them.
pub open spec fn slash_separated(parts: Seq<Seq<char>>) -> Seq<char>
    decreases parts.len(),
{
    if parts.len() == 0 {
        Seq::empty()
    } else if parts.len() == 1 {
        parts[0]
    } else {
        slash_separated(parts.drop_last()) + "/"@ + parts.last()
    }
}

/// Whether `name` names one directory entry: it is not empty, holds no slash,
/// and means neither the directory itself nor the one above.
pub open spec fn is_entry_name(name: Seq<char>) -> bool {
    &&& name.len() > 0
    &&& !name.contains('/')
    &&& name != "."@
    &&& name != ".."@
}

/// Whether `parts` names a file in a directory of the archive: at least one
/// directory, then the file.
pub open spec fn is_block_path(parts: Seq<Seq<char>>) -> bool {
    &&& parts.len() >= 2
    &&& forall|i: int| 0 <= i < parts.len() ==> is_entry_name(#[trigger] parts[i])
}

fn check_entry_name(name: &str) -> (ok: bool)
    ensures
        ok == is_entry_name(name@),
{
    let n = name.unicode_len();
    if n == 0 || same_text(name, ".") || same_text(name, "..") {
        return false;
    }
    let mut i: usize = 0;
    while i < n
        invariant
            n == name@.len(),
            i <= n,
            forall|j: int| 0 <= j < i ==> name@[j] != '/',
        decreases n - i,
    {
        if name.get_char(i) == '/' {
            assert(name@.contains('/'));
            return false;
        }
        i += 1;
    }
    true
}

/// The path of a file of blocks, relative to the root of the archive.
#[derive(Debug)]
pub struct BlockPath {
    components: Vec<String>,
}

impl View for BlockPath {
    type V = Seq<Seq<char>>;

    /// The names on the path, the file's name last.
    closed spec fn view(&self) -> Seq<Seq<char>> {
        texts(self.components@)
    }
}

impl BlockPath {
    #[verifier::type_invariant]
    spec fn well_formed(&self) -> bool {
        is_block_path(texts(self.components@))
    }

    /// The path with the given names, the file's name last. `None` where they
    /// do not name a file in a directory of the archive.
    pub fn new(components: Vec<String>) -> (path: Option<BlockPath>)
        ensures
            path is Some <==> is_block_path(texts(components@)),
            path matches Some(path) ==> path@ == texts(components@),
    {
        if components.len() < 2 {
            return None;
        }
        let mut i: usize = 0;
        while i < components.len()
            invariant
                i <= components@.len(),
                forall|j: int| 0 <= j < i ==> is_entry_name(#[trigger] texts(components@)[j]),
            decreases components@.len() - i,
        {
            if !check_entry_name(components[i].as_str()) {
                assert(!is_entry_name(texts(components@)[i as int]));
                return None;
            }
            i += 1;
        }
        Some(BlockPath { components })
    }

    fn joined_prefix(&self, n: usize) -> (text: String)
        requires
            1 <= n <= self@.len(),
        ensures
            text@ == slash_separated(self@.take(n as int)),
    {
        let mut text = self.components[0].clone();
        let mut i: usize = 1;
        assert(text@ == slash_separated(self@.take(1)));
        while i < n
            invariant
                1 <= i <= n <= self@.len(),
                text@ == slash_separated(self@.take(i as int)),
            decreases n - i,
        {
            text.append("/");
            text.append(self.components[i].as_str());
            proof {
                let next = self@.take(i + 1);
                assert(next.drop_last() =~= self@.take(i as int));
                assert(next.last() == self.components@[i as int]@);
            }
            i += 1;
        }
        text
    }

    /// The names on the path, with slashes between them.
    pub fn text(&self) -> (text: String)
        ensures
            text@ == slash_separated(self@),
            is_block_path(self@),
    {
        proof {
            use_type_invariant(self);
        }
        let text = self.joined_prefix(self.components.len());
        assert(self@.take(self@.len() as int) =~= self@);
        text
    }

    /// The name of the file.
    pub fn file_name(&self) -> (name: String)
        ensures
            name@ == self@.last(),
    {
        proof {
            use_type_invariant(self);
        }
        self.components[self.components.len() - 1].clone()
    }

    /// The path of the file, in an archive at `root`.
    pub fn file_under(&self, root: &str) -> (path: String)
        ensures
            path@ == path_joined(root@, slash_separated(self@)),
    {
        join_path(root, self.text().as_str())
    }

    /// The path of the directory that holds the file, in an archive at `root`.
    pub fn directory_under(&self, root: &str) -> (path: String)
        ensures
            path@ == path_joined(root@, slash_separated(self@.drop_last())),
    {
        proof {
            use_type_invariant(self);
        }
        let directory = self.joined_prefix(self.components.len() - 1);
        assert(self@.take(self@.len() - 1) =~= self@.drop_last());
        join_path(root, directory.as_str())
    }
}

/// What the layout of an archive is asked for the path of.
#[derive(Clone, Copy, Debug, PartialEq, Eq, Structural)]
pub enum PathQuery {
    /// A single block.
    Block {
        /// The block.
        index: BlockIndex,
    },
    /// A run of merged blocks.
    Run {
        /// How many blocks the run has.
        size: u64,
        /// The first of them.
        first: BlockIndex,
    },
}

/// A file lies in its directory under its name: the file's path is the
/// directory's path, a slash and the file's name, and that name holds no slash.
pub proof fn file_lies_in_its_directory(root: Seq<char>, parts: Seq<Seq<char>>)
    requires
        is_block_path(parts),
    ensures
        path_joined(root, slash_separated(parts)) == path_joined(
            root,
            slash_separated(parts.drop_last()),
        ) + "/"@ + parts.last(),
        !parts.last().contains('/'),
{
    let directory = parts.drop_last();
    assert forall|i: int| 0 <= i < directory.len() implies is_entry_name(
        #[trigger] directory[i],
    ) by {
        assert(is_entry_name(parts[i]));
    }
    separated_names_are_relative(directory);
    separated_names_are_relative(parts);
    assert(is_entry_name(parts.last()));
    reveal_strlit("/");
    assert(path_joined(root, slash_separated(parts)) =~= path_joined(
        root,
        slash_separated(directory),
    ) + "/"@ + parts.last());
}

/// Names with slashes between them are a relative path.
pub proof fn separated_names_are_relative(parts: Seq<Seq<char>>)
    requires
        parts.len() > 0,
        forall|i: int| 0 <= i < parts.len() ==> is_entry_name(#[trigger] parts[i]),
    ensures
        slash_separated(parts).len() > 0,
        slash_separated(parts)[0] != '/',
    decreases parts.len(),
{
    assert(is_entry_name(parts[0]));
    if parts.len() == 1 {
        assert(parts[0].contains(parts[0][0]));
    } else {
        let front = parts.drop_last();
        assert forall|i: int| 0 <= i < front.len() implies is_entry_name(#[trigger] front[i]) by {
            assert(is_entry_name(parts[i]));
        }
        separated_names_are_relative(front);
    }
}

/// Different paths name different files of an archive.
pub proof fn different_paths_name_different_files(
    root: Seq<char>,
    a: Seq<Seq<char>>,
    b: Seq<Seq<char>>,
)
    requires
        is_block_path(a),
        is_block_path(b),
        a != b,
    ensures
        path_joined(root, slash_separated(a)) != path_joined(root, slash_separated(b)),
{
    separated_names_are_relative(a);
    separated_names_are_relative(b);
    let base = if root.len() == 0 || root.last() == '/' {
        root
    } else {
        root + "/"@
    };
    assert(path_joined(root, slash_separated(a)) =~= base + slash_separated(a));
    assert(path_joined(root, slash_separated(b)) =~= base + slash_separated(b));
    if base + slash_separated(a) == base + slash_separated(b) {
        let n = base.len() as int;
        let joined = base + slash_separated(a);
        assert(slash_separated(a) =~= joined.skip(n));
        assert(slash_separated(b) =~= joined.skip(n));
        separated_names_are_told_apart(a, b);
    }
}

/// The names can be read off a text that has slashes between them.
proof fn separated_names_are_told_apart(a: Seq<Seq<char>>, b: Seq<Seq<char>>)
    requires
        a.len() > 0,
        b.len() > 0,
        forall|i: int| 0 <= i < a.len() ==> is_entry_name(#[trigger] a[i]),
        forall|i: int| 0 <= i < b.len() ==> is_entry_name(#[trigger] b[i]),
        slash_separated(a) == slash_separated(b),
    ensures
        a == b,
    decreases a.len(),
{
    reveal_strlit("/");
    let text = slash_separated(a);
    let a_last = a[a.len() - 1];
    let b_last = b[b.len() - 1];
    assert(is_entry_name(a_last) && is_entry_name(b_last));
    let a_slash = text.len() - a_last.len() - 1;
    let b_slash = text.len() - b_last.len() - 1;
    last_name_is_at_the_end(a);
    last_name_is_at_the_end(b);
    if a_last.len() < b_last.len() {
        assert(text[a_slash] == '/');
        assert(b_last[a_slash - b_slash - 1] == '/');
    }
    if b_last.len() < a_last.len() {
        assert(text[b_slash] == '/');
        assert(a_last[b_slash - a_slash - 1] == '/');
    }
    assert(a_slash == b_slash);
    assert(a_last =~= b_last);
    if a.len() > 1 {
        let a_front = a.drop_last();
        let b_front = b.drop_last();
        assert(slash_separated(a_front) =~= text.take(a_slash));
        assert(slash_separated(b_front) =~= text.take(a_slash));
        assert forall|i: int| 0 <= i < a_front.len() implies is_entry_name(
            #[trigger] a_front[i],
        ) by {
            assert(is_entry_name(a[i]));
        }
        assert forall|i: int| 0 <= i < b_front.len() implies is_entry_name(
            #[trigger] b_front[i],
        ) by {
            assert(is_entry_name(b[i]));
        }
        separated_names_are_told_apart(a_front, b_front);
        assert(a =~= a_front.push(a_last));
        assert(b =~= b_front.push(b_last));
    } else {
        assert(a =~= b);
    }
}

/// The text ends with the last name, after a slash where there are others.
proof fn last_name_is_at_the_end(parts: Seq<Seq<char>>)
    requires
        parts.len() > 0,
    ensures
        ({
            let text = slash_separated(parts);
            let last = parts[parts.len() - 1];
            let start = text.len() - last.len();
            &&& start >= 0
            &&& text.skip(start) == last
            &&& forall|i: int| 0 <= i < last.len() ==> text[start + i] == #[trigger] last[i]
            &&& if parts.len() == 1 {
                start == 0
            } else {
                start >= 1 && text[start - 1] == '/'
            }
        }),
{
    reveal_strlit("/");
    let text = slash_separated(parts);
    let last = parts[parts.len() - 1];
    assert(text.skip(text.len() - last.len()) =~= last);
}

/// Joining keeps both paths whole: what is joined to a directory lies below it,
/// with one slash in between, and an absolute path stays as it is.
pub proof fn joining_keeps_both_paths(base: Seq<char>, relative: Seq<char>)
    ensures
        relative.len() > 0 && relative[0] == '/' ==> path_joined(base, relative) == relative,
        !(relative.len() > 0 && relative[0] == '/') ==> {
            &&& base.len() == 0 ==> path_joined(base, relative) == relative
            &&& base.len() > 0 && base.last() == '/' ==> path_joined(base, relative) == base
                + relative
            &&& base.len() > 0 && base.last() != '/' ==> path_joined(base, relative)
                == base.push('/') + relative
        },
{
    reveal_strlit("/");
    if base.len() == 0 {
        assert(base + relative =~= relative);
    }
    assert(base + "/"@ =~= base.push('/'));
}

/// Names are separated one by one: two paths in a row are both there, with one
/// slash in between, and a single name stands for itself.
pub proof fn names_are_separated_one_by_one(
    name: Seq<char>,
    front: Seq<Seq<char>>,
    back: Seq<Seq<char>>,
)
    ensures
        slash_separated(seq![name]) == name,
        front.len() > 0 && back.len() > 0 ==> slash_separated(front + back) == slash_separated(
            front,
        ).push('/') + slash_separated(back),
    decreases back.len(),
{
    reveal_strlit("/");
    if front.len() > 0 && back.len() > 0 {
        let all = front + back;
        assert(all.drop_last() =~= front + back.drop_last());
        if back.len() == 1 {
            assert(all.drop_last() =~= front);
        } else {
            names_are_separated_one_by_one(name, front, back.drop_last());
        }
        assert(slash_separated(all) =~= slash_separated(front).push('/') + slash_separated(back));
    }
}

/// A path in an archive is any file in any directory below the root: every list
/// of two names or more, and no other, where no name is empty, holds a slash, or
/// leads to the same directory or to the one above.
pub proof fn block_paths_are_files_in_directories(parts: Seq<Seq<char>>)
    ensures
        is_block_path(parts) <==> parts.len() >= 2 && forall|i: int|
            0 <= i < parts.len() ==> {
                let name = #[trigger] parts[i];
                &&& name.len() > 0
                &&& forall|j: int| 0 <= j < name.len() ==> name[j] != '/'
                &&& name != seq!['.']
                &&& name != seq!['.', '.']
            },
{
    reveal_strlit(".");
    reveal_strlit("..");
    assert("."@ =~= seq!['.']);
    assert(".."@ =~= seq!['.', '.']);
    assert forall|name: Seq<char>| #[trigger] is_entry_name(name) <==> {
        &&& name.len() > 0
        &&& forall|j: int| 0 <= j < name.len() ==> name[j] != '/'
        &&& name != seq!['.']
        &&& name != seq!['.', '.']
    } by {
        if name.contains('/') {
            let j = choose|j: int| 0 <= j < name.len() && name[j] == '/';
            assert(name[j] == '/');
        }
    }
    if is_block_path(parts) {
        assert forall|i: int| 0 <= i < parts.len() implies {
            let name = #[trigger] parts[i];
            &&& name.len() > 0
            &&& forall|j: int| 0 <= j < name.len() ==> name[j] != '/'
            &&& name != seq!['.']
            &&& name != seq!['.', '.']
        } by {
            assert(is_entry_name(parts[i]));
        }
    } else if parts.len() >= 2 {
        let i = choose|i: int| 0 <= i < parts.len() && !is_entry_name(#[trigger] parts[i]);
        assert(!is_entry_name(parts[i]));
    }
}

} // verus!
