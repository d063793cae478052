//! Names of chunk files, of their encoded counterparts, and of remote paths.
use vstd::prelude::*;
use vstd::string::*;

verus! {

/// The working directory created in the home directory of every host.
pub const REMOTE_DIR: &'static str = "shepherd_tmp_remote";

/// Prefix that marks an encoded chunk.
pub const ENCODED_PREFIX: &'static str = "enc_";

/// Position of the last `c` in `s`, or -1 where `s` holds none.
pub open spec fn last_index(s: Seq<char>, c: char) -> int
    decreases s.len(),
{
    if s.len() == 0 {
        -1
    } else if s.last() == c {
        s.len() - 1
    } else {
        last_index(s.drop_last(), c)
    }
}

/// The final component of a path: what follows its last `/`.
pub open spec fn base_name_of(p: Seq<char>) -> Seq<char> {
    p.subrange(last_index(p, '/') + 1, p.len() as int)
}

/// A file name without its extension: what precedes the last `.`, unless that
/// `.` starts the name.
pub open spec fn stem_of(n: Seq<char>) -> Seq<char> {
    if last_index(n, '.') > 0 {
        n.take(last_index(n, '.'))
    } else {
        n
    }
}

/// The name under which the encoded form of the chunk at `path` is stored.
pub open spec fn encoded_name_of(path: Seq<char>, ext: Seq<char>) -> Seq<char> {
    ENCODED_PREFIX@ + stem_of(base_name_of(path)) + "."@ + ext
}

/// Where a file called `name` lives on a host.
pub open spec fn remote_path_of(name: Seq<char>) -> Seq<char> {
    REMOTE_DIR@ + "/"@ + name
}

pub proof fn lemma_last_index_bounds(s: Seq<char>, c: char)
    ensures
        -1 <= last_index(s, c) < s.len(),
        last_index(s, c) >= 0 ==> s[last_index(s, c)] == c,
        forall|j: int| last_index(s, c) < j < s.len() ==> s[j] != c,
    decreases s.len(),
{
    if s.len() > 0 {
        lemma_last_index_bounds(s.drop_last(), c);
        assert forall|j: int| last_index(s, c) < j < s.len() implies s[j] != c by {
            if j < s.len() - 1 {
                assert(s.drop_last()[j] == s[j]);
            }
        }
    }
}

/// The last `c` of `a`, `c` and `b` in a row, where `b` holds no `c`, is the
/// one between them.
pub proof fn lemma_last_index_split(a: Seq<char>, c: char, b: Seq<char>)
    requires
        forall|i: int| 0 <= i < b.len() ==> b[i] != c,
    ensures
        last_index(a + seq![c] + b, c) == a.len(),
    decreases b.len(),
{
    if b.len() == 0 {
        assert(a + seq![c] + b =~= a.push(c));
    } else {
        assert((a + seq![c] + b).drop_last() =~= a + seq![c] + b.drop_last());
        lemma_last_index_split(a, c, b.drop_last());
    }
}

/// A name with no `.` and no `/` in it.
pub open spec fn plain_name(s: Seq<char>) -> bool {
    forall|i: int| 0 <= i < s.len() ==> s[i] != '.' && s[i] != '/'
}

/// The path of a chunk named `stem` with extension `ext` in `dir`.
pub open spec fn chunk_path_of(dir: Seq<char>, stem: Seq<char>, ext: Seq<char>) -> Seq<char> {
    dir + "/"@ + stem + "."@ + ext
}

/// The encoded chunk made from `dir/stem.in_ext` is `enc_stem.ext`.
pub proof fn lemma_encoded_name_of_chunk(
    dir: Seq<char>,
    stem: Seq<char>,
    in_ext: Seq<char>,
    ext: Seq<char>,
)
    requires
        stem.len() > 0,
        plain_name(stem),
        plain_name(in_ext),
    ensures
        encoded_name_of(chunk_path_of(dir, stem, in_ext), ext) == ENCODED_PREFIX@ + stem + "."@
            + ext,
{
    reveal_strlit("/");
    reveal_strlit(".");
    let base = stem + seq!['.'] + in_ext;
    let path = chunk_path_of(dir, stem, in_ext);
    assert(path =~= dir + seq!['/'] + base);
    assert forall|i: int| 0 <= i < base.len() implies base[i] != '/' by {
        if i < stem.len() {
        } else if i > stem.len() {
            assert(base[i] == in_ext[i - stem.len() - 1]);
        }
    }
    lemma_last_index_split(dir, '/', base);
    assert(base_name_of(path) =~= base);
    lemma_last_index_split(stem, '.', in_ext);
    assert(stem_of(base) =~= stem);
}

/// Position of the last `c` in `s`, if any.
pub fn last_index_of(s: &str, c: char) -> (r: Option<usize>)
    ensures
        match r {
            Some(i) => i as int == last_index(s@, c),
            None => last_index(s@, c) == -1,
        },
{
    let n = s.unicode_len();
    let mut i: usize = n;
    assert(s@.take(n as int) =~= s@);
    while i > 0
        invariant
            n == s@.len(),
            i <= n,
            last_index(s@, c) == last_index(s@.take(i as int), c),
        decreases i,
    {
        let d = s.get_char(i - 1);
        if d == c {
            return Some(i - 1);
        }
        assert(s@.take(i as int).drop_last() =~= s@.take(i - 1));
        i = i - 1;
    }
    None
}

/// The final component of `path`.
pub fn base_name(path: &str) -> (r: String)
    ensures
        r@ == base_name_of(path@),
{
    proof {
        lemma_last_index_bounds(path@, '/');
    }
    let n = path.unicode_len();
    let start = match last_index_of(path, '/') {
        Some(i) => i + 1,
        None => 0,
    };
    String::from_str(path.substring_char(start, n))
}

/// `name` without its extension.
pub fn file_stem(name: &str) -> (r: String)
    ensures
        r@ == stem_of(name@),
{
    proof {
        lemma_last_index_bounds(name@, '.');
    }
    match last_index_of(name, '.') {
        Some(i) => {
            if i > 0 {
                String::from_str(name.substring_char(0, i))
            } else {
                String::from_str(name)
            }
        },
        None => String::from_str(name),
    }
}

/// The name of the encoded chunk made from the chunk at `path`, with the
/// extension `ext`.
pub fn encoded_name(path: &str, ext: &str) -> (r: String)
    ensures
        r@ == encoded_name_of(path@, ext@),
{
    let base = base_name(path);
    let stem = file_stem(base.as_str());
    let mut r = String::from_str(ENCODED_PREFIX);
    r.append(stem.as_str());
    r.append(".");
    r.append(ext);
    proof {
        assert(r@ =~= encoded_name_of(path@, ext@));
    }
    r
}

/// The path on a host of the file called `name`.
pub fn remote_path(name: &str) -> (r: String)
    ensures
        r@ == remote_path_of(name@),
{
    let mut r = String::from_str(REMOTE_DIR);
    r.append("/");
    r.append(name);
    proof {
        assert(r@ =~= remote_path_of(name@));
    }
    r
}

} // verus!
