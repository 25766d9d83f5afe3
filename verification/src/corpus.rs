//! A profile's vector corpus.
//!
//! A bundle declares the directories of its own vectors and the families of the
//! shared library it consumes. The files found there are ordered by path, so that
//! loading the same tree twice gives the same corpus, and each is checked against the
//! bundle. A profile-independent vector whose method the profile does not declare does
//! not apply and is excluded with a warning; every other defect refuses the corpus,
//! because a corpus that quietly lacked a vector would report a contract as
//! conformant against requirements it never ran.
use vstd::prelude::*;

use crate::bundle::ProfileBundle;
use crate::profile_model::{first_with_id, lemma_first_with_id_none, method_ids};
use crate::taxonomy::{
    Diagnostic, Diagnostics, ErrorClass, Failure, Finding, Severity, context_view, error_finding, into_result,
    is_first_error, no_errors, warning_finding,
};
use crate::text::{
    contains_text, debug_text, decimal_text, spec_decimal, join, joined, lemma_text_order, owned, push_str, quoted, str_eq, text_less, text_lt,
    texts,
};
use crate::vector_model::VectorDocument;
use crate::vector_validate::{spec_validate, validate};

verus! {

/// The most vectors one tree may hold.
pub const MAX_VECTORS: usize = 10000;

/// The deepest a vector tree may nest.
pub const MAX_WALK_DEPTH: usize = 8;

/// What a directory entry is, taken from the entry itself rather than by following its
/// path, so that a symbolic link is neither a directory to descend into nor a vector.
#[derive(Debug, Clone, Copy, PartialEq, Eq, Structural)]
pub enum EntryKind {
    /// A directory.
    Directory,
    /// A regular file.
    File,
    /// Anything else, a link among them.
    Other,
}

/// What the walk of a vector tree does with one directory entry.
#[derive(Debug, Clone, Copy, PartialEq, Eq, Structural)]
pub enum WalkStep {
    /// List it later, at this depth.
    Descend(usize),
    /// Take it as a vector file.
    Collect,
    /// Pass over it.
    Pass,
}

/// The refusal of a tree that nests deeper than the layout reaches.
pub open spec fn too_deep_message(root: Seq<char>) -> Seq<char> {
    "the vector tree below "@ + root + " is deeper than "@ + spec_decimal(MAX_WALK_DEPTH as nat)
        + " levels, which the layout does not reach"@
}

/// The refusal of a tree that holds more vectors than one tree may.
pub open spec fn too_many_message(root: Seq<char>) -> Seq<char> {
    "the vector tree below "@ + root + " holds more than "@ + spec_decimal(MAX_VECTORS as nat) + " vectors"@
}

/// Whether an entry's extension, where it has one, is `yaml`.
pub open spec fn is_yaml(extension: Option<&str>) -> bool {
    match extension {
        Some(e) => e@ == "yaml"@,
        None => false,
    }
}

/// Allows listing a directory `depth` levels below the tree's root `root`, or refuses
/// the tree as deeper than the layout reaches.
pub fn walk_depth(root: &str, depth: usize) -> (res: Result<(), Failure>)
    ensures
        depth <= MAX_WALK_DEPTH ==> res is Ok,
        depth > MAX_WALK_DEPTH ==> (res matches Err(f) && f.class == ErrorClass::VectorError
            && f.message@ == too_deep_message(root@) && f.context@.len() == 0),
{
    if depth <= MAX_WALK_DEPTH {
        return Ok(());
    }
    let mut message = owned("the vector tree below ");
    push_str(&mut message, root);
    push_str(&mut message, " is deeper than ");
    push_str(&mut message, decimal_text(MAX_WALK_DEPTH as u64).as_str());
    push_str(&mut message, " levels, which the layout does not reach");
    Err(Failure::new(ErrorClass::VectorError, message))
}

/// What the walk of the tree below `root` does with an entry met `depth` levels down,
/// when `found` vectors have been collected: a directory is listed one level deeper, a
/// regular `.yaml` file is collected unless the tree already holds as many vectors as
/// one tree may, which refuses it, and anything else is passed over.
pub fn walk_step(root: &str, depth: usize, kind: EntryKind, extension: Option<&str>, found: usize) -> (res: Result<WalkStep, Failure>)
    requires
        depth < usize::MAX,
    ensures
        kind == EntryKind::Directory ==> res == Ok::<WalkStep, Failure>(WalkStep::Descend((depth + 1) as usize)),
        kind == EntryKind::File && is_yaml(extension) && found < MAX_VECTORS ==> res == Ok::<WalkStep, Failure>(WalkStep::Collect),
        kind == EntryKind::File && is_yaml(extension) && found >= MAX_VECTORS ==> (res matches Err(f)
            && f.class == ErrorClass::VectorError && f.message@ == too_many_message(root@) && f.context@.len() == 0),
        kind == EntryKind::Other || (kind == EntryKind::File && !is_yaml(extension)) ==> res == Ok::<WalkStep, Failure>(WalkStep::Pass),
{
    match kind {
        EntryKind::Directory => Ok(WalkStep::Descend(depth + 1)),
        EntryKind::File => {
            let yaml = match extension {
                Some(e) => str_eq(e, "yaml"),
                None => false,
            };
            if !yaml {
                return Ok(WalkStep::Pass);
            }
            if found < MAX_VECTORS {
                return Ok(WalkStep::Collect);
            }
            let mut message = owned("the vector tree below ");
            push_str(&mut message, root);
            push_str(&mut message, " holds more than ");
            push_str(&mut message, decimal_text(MAX_VECTORS as u64).as_str());
            push_str(&mut message, " vectors");
            Err(Failure::new(ErrorClass::VectorError, message))
        },
        EntryKind::Other => Ok(WalkStep::Pass),
    }
}

/// The refusal of a declared directory that does not exist.
pub open spec fn missing_tree_message(name: Seq<char>, what: Seq<char>, path: Seq<char>) -> Seq<char> {
    "the profile declares "@ + debug_text(name) + " under "@ + what + ", but "@ + path
        + " is not a directory; a declared requirement directory that does not exist is a suite that is missing vectors rather than a profile that does not claim them"@
}

/// The refusal of a declared directory that holds no vectors.
pub open spec fn empty_tree_message(name: Seq<char>, what: Seq<char>, path: Seq<char>) -> Seq<char> {
    "the profile declares "@ + debug_text(name) + " under "@ + what + ", but "@ + path + " holds no vectors"@
}

/// Accepts a directory the profile declares as `name` under `what`, found at `path`,
/// only when it is a directory; a declared directory that does not exist is a suite
/// missing vectors, not a profile that does not claim them.
pub fn declared_directory(name: &str, what: &str, path: &str, is_directory: bool) -> (res: Result<(), Failure>)
    ensures
        is_directory ==> res is Ok,
        !is_directory ==> (res matches Err(f) && f.class == ErrorClass::VectorError
            && f.message@ == missing_tree_message(name@, what@, path@)
            && context_view(f.context@) == seq![("declared"@, name@), ("path"@, path@)]),
{
    if is_directory {
        return Ok(());
    }
    let mut message = owned("the profile declares ");
    push_str(&mut message, quoted(name).as_str());
    push_str(&mut message, " under ");
    push_str(&mut message, what);
    push_str(&mut message, ", but ");
    push_str(&mut message, path);
    push_str(&mut message, " is not a directory; a declared requirement directory that does not exist is a suite that is missing vectors rather than a profile that does not claim them");
    let f = Failure::new(ErrorClass::VectorError, message).with_context("declared", owned(name)).with_context("path", owned(path));
    proof { assert(context_view(f.context@) =~= seq![("declared"@, name@), ("path"@, path@)]); }
    Err(f)
}

/// Accepts the vectors found in a declared directory only when there is at least one.
pub fn declared_files(name: &str, what: &str, path: &str, found: usize) -> (res: Result<(), Failure>)
    ensures
        found > 0 ==> res is Ok,
        found == 0 ==> (res matches Err(f) && f.class == ErrorClass::VectorError
            && f.message@ == empty_tree_message(name@, what@, path@)
            && context_view(f.context@) == seq![("declared"@, name@)]),
{
    if found > 0 {
        return Ok(());
    }
    let mut message = owned("the profile declares ");
    push_str(&mut message, quoted(name).as_str());
    push_str(&mut message, " under ");
    push_str(&mut message, what);
    push_str(&mut message, ", but ");
    push_str(&mut message, path);
    push_str(&mut message, " holds no vectors");
    let f = Failure::new(ErrorClass::VectorError, message).with_context("declared", owned(name));
    proof { assert(context_view(f.context@) =~= seq![("declared"@, name@)]); }
    Err(f)
}

/// Which library a vector was found in.
#[derive(Debug, Clone, Copy, PartialEq, Eq, PartialOrd, Ord, Structural)]
pub enum Library {
    /// The bundle's own vectors.
    Bundle,
    /// The shared, profile-independent library.
    Shared,
}

impl Library {
    /// The name the library has in a corpus digest.
    pub open spec fn spec_digest_name(self) -> Seq<char> {
        match self {
            Library::Bundle => "bundle"@,
            Library::Shared => "shared"@,
        }
    }

    /// The name the library has in a corpus digest.
    pub fn as_digest_name(self) -> (res: &'static str)
        ensures
            res@ == self.spec_digest_name(),
    {
        match self {
            Library::Bundle => "bundle",
            Library::Shared => "shared",
        }
    }
}

/// Where a vector came from: its library, and its path below that library's root.
#[derive(Debug, Clone, PartialEq, Eq, PartialOrd, Ord)]
pub struct Origin {
    /// The library.
    pub library: Library,
    /// The path below the library's root, its components joined by `/`.
    pub relative: String,
}

impl Origin {
    /// The origin of the file whose path below `library`'s root has `components`.
    pub fn new(library: Library, components: &Vec<String>) -> (res: Self)
        ensures
            res.library == library,
            res.relative@ == joined(texts(components@), "/"@),
    {
        Origin { library, relative: join(components, "/") }
    }

    /// The origin as a digest names it, `library:relative`.
    pub fn to_text(&self) -> (res: String)
        ensures
            res@ == self.library.spec_digest_name() + ":"@ + self.relative@,
    {
        let mut out = owned(self.library.as_digest_name());
        push_str(&mut out, ":");
        push_str(&mut out, self.relative.as_str());
        out
    }
}

/// One vector, with where it was read from.
#[derive(Debug, PartialEq)]
pub struct Vector {
    /// The file it was read from.
    pub path: String,
    /// The components of that path, by which vectors are ordered.
    pub key: Vec<String>,
    /// Its library and place in it.
    pub origin: Origin,
    /// The document.
    pub document: VectorDocument,
}

impl Vector {
    /// The file it was read from.
    pub fn path(&self) -> (res: &str)
        ensures
            res@ == self.path@,
    {
        self.path.as_str()
    }

    /// Its library and place in it.
    pub fn origin(&self) -> (res: &Origin)
        ensures
            *res == self.origin,
    {
        &self.origin
    }

    /// The document.
    pub fn document(&self) -> (res: &VectorDocument)
        ensures
            *res == self.document,
    {
        &self.document
    }

    /// Its identifier.
    pub fn id(&self) -> (res: &str)
        ensures
            res@ == self.document.id@,
    {
        self.document.id.as_str()
    }

    /// Whether it belongs to no profile.
    pub fn is_profile_independent(&self) -> (res: bool)
        ensures
            res == (self.document.profile@ == "*"@),
    {
        str_eq(self.document.profile.as_str(), "*")
    }
}

/// The components of a vector's path, as values.
pub open spec fn key_of(v: Vector) -> Seq<Seq<char>> {
    texts(v.key@)
}

/// Whether path `a` sorts strictly before path `b`: component by component, a proper
/// prefix first, as paths compare.
pub open spec fn key_lt(a: Seq<Seq<char>>, b: Seq<Seq<char>>) -> bool
    decreases a.len(),
{
    if a.len() == 0 {
        b.len() > 0
    } else if b.len() == 0 {
        false
    } else if a[0] == b[0] {
        key_lt(a.drop_first(), b.drop_first())
    } else {
        text_lt(a[0], b[0])
    }
}

/// The order on paths is irreflexive, transitive and total.
pub proof fn lemma_key_order(a: Seq<Seq<char>>, b: Seq<Seq<char>>, c: Seq<Seq<char>>)
    ensures
        !key_lt(a, a),
        key_lt(a, b) && key_lt(b, c) ==> key_lt(a, c),
        a != b ==> (key_lt(a, b) || key_lt(b, a)),
        key_lt(a, b) ==> !key_lt(b, a),
    decreases a.len(),
{
    if a.len() > 0 && b.len() > 0 && c.len() > 0 {
        lemma_key_order(a.drop_first(), b.drop_first(), c.drop_first());
        lemma_text_order(a[0], b[0], c[0]);
    }
    if a.len() > 0 && b.len() > 0 {
        lemma_key_order(a.drop_first(), b.drop_first(), b.drop_first());
        lemma_text_order(a[0], b[0], b[0]);
        if a != b && a[0] == b[0] {
            assert(a =~= seq![a[0]] + a.drop_first());
            assert(b =~= seq![b[0]] + b.drop_first());
        }
    }
    if a.len() > 0 {
        lemma_key_order(a.drop_first(), a.drop_first(), a.drop_first());
        lemma_text_order(a[0], a[0], a[0]);
    }
    if a.len() == 0 && b.len() == 0 {
        assert(a =~= b);
    }
}

/// Whether path `a` sorts strictly before path `b`.
fn key_less(a: &Vec<String>, b: &Vec<String>) -> (res: bool)
    ensures
        res == key_lt(texts(a@), texts(b@)),
{
    let ghost x = texts(a@);
    let ghost y = texts(b@);
    let mut i: usize = 0;
    proof {
        assert(x.skip(0) =~= x);
        assert(y.skip(0) =~= y);
    }
    while i < a.len() && i < b.len()
        invariant
            x == texts(a@),
            y == texts(b@),
            i <= a@.len(),
            i <= b@.len(),
            key_lt(x, y) == key_lt(x.skip(i as int), y.skip(i as int)),
        decreases a@.len() - i,
    {
        proof {
            assert(x.skip(i as int).drop_first() =~= x.skip(i as int + 1));
            assert(y.skip(i as int).drop_first() =~= y.skip(i as int + 1));
            assert(x.skip(i as int)[0] == a@[i as int]@);
            assert(y.skip(i as int)[0] == b@[i as int]@);
        }
        if !str_eq(a[i].as_str(), b[i].as_str()) {
            return text_less(a[i].as_str(), b[i].as_str());
        }
        i = i + 1;
    }
    proof {
        assert(x.skip(i as int).len() == x.len() - i);
        assert(y.skip(i as int).len() == y.len() - i);
    }
    i < b.len()
}

/// The position of the first source with the path `key`.
pub open spec fn first_with_key(sources: Seq<Vector>, key: Seq<Seq<char>>) -> int {
    choose|j: int| 0 <= j < sources.len() && key_of(sources[j]) == key && forall|i: int| 0 <= i < j ==> key_of(sources[i]) != key
}

/// Whether `ordered` is `sources` ordered by path with repeated paths removed: paths
/// strictly increasing, every source's path present, and each entry the first source
/// with its path.
pub open spec fn is_ordering(sources: Seq<Vector>, ordered: Seq<Vector>) -> bool {
    &&& forall|i: int, j: int| 0 <= i < j < ordered.len() ==> key_lt(#[trigger] key_of(ordered[i]), #[trigger] key_of(ordered[j]))
    &&& forall|j: int| 0 <= j < sources.len() ==> #[trigger] has_key(ordered, key_of(sources[j]))
    &&& forall|k: int| 0 <= k < ordered.len() ==> #[trigger] drawn_from(sources, ordered[k])
}

/// Whether some entry has the path `key`.
pub open spec fn has_key(entries: Seq<Vector>, key: Seq<Seq<char>>) -> bool {
    exists|k: int| 0 <= k < entries.len() && key_of(entries[k]) == key
}

/// Whether `sources[j]` is the first source with its path.
pub open spec fn first_of_key(sources: Seq<Vector>, j: int) -> bool {
    0 <= j < sources.len() && forall|i: int| 0 <= i < j ==> key_of(sources[i]) != key_of(sources[j])
}

/// Whether `x` is a source that is the first with its path.
pub open spec fn drawn_from(sources: Seq<Vector>, x: Vector) -> bool {
    exists|j: int| #[trigger] first_of_key(sources, j) && x == sources[j]
}

/// Whether paths are strictly increasing.
pub open spec fn keys_increasing(keys: Seq<Seq<Seq<char>>>) -> bool {
    forall|i: int, j: int| 0 <= i < j < keys.len() ==> key_lt(#[trigger] keys[i], #[trigger] keys[j])
}

/// The paths of some vectors, in order.
pub open spec fn keys_of(entries: Seq<Vector>) -> Seq<Seq<Seq<char>>> {
    entries.map_values(|v: Vector| key_of(v))
}

/// Two strictly increasing listings of the same set of paths are the same listing.
proof fn lemma_increasing_keys_unique(a: Seq<Seq<Seq<char>>>, b: Seq<Seq<Seq<char>>>)
    requires
        keys_increasing(a),
        keys_increasing(b),
        a.to_set() == b.to_set(),
    ensures
        a == b,
    decreases a.len(),
{
    if a.len() == 0 {
        if b.len() > 0 {
            assert(b.to_set().contains(b[0]));
            assert(a.to_set().contains(b[0]));
        }
        assert(a =~= b);
        return;
    }
    if b.len() == 0 {
        assert(a.to_set().contains(a[0]));
        assert(b.to_set().contains(a[0]));
        return;
    }
    assert(b.to_set().contains(a[0]));
    let j = choose|j: int| 0 <= j < b.len() && b[j] == a[0];
    assert(a.to_set().contains(b[0]));
    let k = choose|k: int| 0 <= k < a.len() && a[k] == b[0];
    if j > 0 {
        assert(key_lt(b[0], b[j]));
        if k > 0 {
            assert(key_lt(a[0], a[k]));
            lemma_key_order(b[0], a[0], b[0]);
        } else {
            lemma_key_order(b[0], b[0], b[0]);
        }
    }
    let ta = a.drop_first();
    let tb = b.drop_first();
    assert(keys_increasing(ta)) by {
        assert forall|x: int, y: int| 0 <= x < y < ta.len() implies key_lt(#[trigger] ta[x], #[trigger] ta[y]) by {
            assert(ta[x] == a[x + 1]);
            assert(ta[y] == a[y + 1]);
        }
    }
    assert(keys_increasing(tb)) by {
        assert forall|x: int, y: int| 0 <= x < y < tb.len() implies key_lt(#[trigger] tb[x], #[trigger] tb[y]) by {
            assert(tb[x] == b[x + 1]);
            assert(tb[y] == b[y + 1]);
        }
    }
    assert(ta.to_set() =~= tb.to_set()) by {
        assert forall|t: Seq<Seq<char>>| ta.to_set().contains(t) implies tb.to_set().contains(t) by {
            let x = choose|x: int| 0 <= x < ta.len() && ta[x] == t;
            assert(a[x + 1] == t);
            assert(key_lt(a[0], a[x + 1]));
            lemma_key_order(a[0], a[0], a[0]);
            assert(b.to_set().contains(t));
            let y = choose|y: int| 0 <= y < b.len() && b[y] == t;
            if y == 0 {
                assert(t == a[0]);
            }
            assert(tb[y - 1] == t);
        }
        assert forall|t: Seq<Seq<char>>| tb.to_set().contains(t) implies ta.to_set().contains(t) by {
            let y = choose|y: int| 0 <= y < tb.len() && tb[y] == t;
            assert(b[y + 1] == t);
            assert(key_lt(b[0], b[y + 1]));
            lemma_key_order(b[0], b[0], b[0]);
            assert(a.to_set().contains(t));
            let x = choose|x: int| 0 <= x < a.len() && a[x] == t;
            if x == 0 {
                assert(t == b[0]);
            }
            assert(ta[x - 1] == t);
        }
    }
    lemma_increasing_keys_unique(ta, tb);
    assert(a =~= seq![a[0]] + ta);
    assert(b =~= seq![b[0]] + tb);
}

/// The paths an ordering lists are exactly the paths of the sources.
proof fn lemma_ordering_keys(sources: Seq<Vector>, ordered: Seq<Vector>)
    requires
        is_ordering(sources, ordered),
    ensures
        keys_increasing(keys_of(ordered)),
        forall|k: Seq<Seq<char>>| keys_of(ordered).to_set().contains(k) <==> keys_of(sources).to_set().contains(k),
{
    let ko = keys_of(ordered);
    let ks = keys_of(sources);
    assert(keys_increasing(ko)) by {
        assert forall|i: int, j: int| 0 <= i < j < ko.len() implies key_lt(#[trigger] ko[i], #[trigger] ko[j]) by {
            assert(ko[i] == key_of(ordered[i]));
            assert(ko[j] == key_of(ordered[j]));
        }
    }
    assert forall|k: Seq<Seq<char>>| ko.to_set().contains(k) <==> ks.to_set().contains(k) by {
        if ko.to_set().contains(k) {
            let x = choose|x: int| 0 <= x < ko.len() && ko[x] == k;
            assert(drawn_from(sources, ordered[x]));
            let j = choose|j: int| #[trigger] first_of_key(sources, j) && ordered[x] == sources[j];
            assert(ks[j] == k);
        }
        if ks.to_set().contains(k) {
            let y = choose|y: int| 0 <= y < ks.len() && ks[y] == k;
            assert(has_key(ordered, key_of(sources[y])));
            let x = choose|x: int| 0 <= x < ordered.len() && key_of(ordered[x]) == key_of(sources[y]);
            assert(ko[x] == k);
        }
    }
}

/// Ordering the same sources always gives the same corpus order: it is a function of
/// what was read, never of anything else.
pub proof fn law_ordering_is_unique(sources: Seq<Vector>, first: Seq<Vector>, second: Seq<Vector>)
    requires
        is_ordering(sources, first),
        is_ordering(sources, second),
    ensures
        first == second,
{
    lemma_ordering_keys(sources, first);
    lemma_ordering_keys(sources, second);
    assert(keys_of(first).to_set() =~= keys_of(second).to_set());
    lemma_increasing_keys_unique(keys_of(first), keys_of(second));
    assert(first.len() == keys_of(first).len());
    assert forall|i: int| 0 <= i < first.len() implies first[i] == second[i] by {
        assert(keys_of(first)[i] == keys_of(second)[i]);
        assert(drawn_from(sources, first[i]));
        assert(drawn_from(sources, second[i]));
        let a = choose|j: int| #[trigger] first_of_key(sources, j) && first[i] == sources[j];
        let b = choose|j: int| #[trigger] first_of_key(sources, j) && second[i] == sources[j];
        assert(key_of(sources[a]) == key_of(sources[b]));
        if a < b {
            assert(key_of(sources[a]) != key_of(sources[b]));
        }
        if b < a {
            assert(key_of(sources[b]) != key_of(sources[a]));
        }
    }
    assert(first =~= second);
}

/// Whether no two of `sources` share a path.
pub open spec fn distinct_paths(sources: Seq<Vector>) -> bool {
    forall|i: int, j: int| 0 <= i < j < sources.len() ==> key_of(#[trigger] sources[i]) != key_of(#[trigger] sources[j])
}

/// The order in which files were read does not change the corpus: two reads of the
/// same vectors, each path read once, are ordered the same way.
pub proof fn law_read_order_does_not_matter(
    read: Seq<Vector>,
    reread: Seq<Vector>,
    first: Seq<Vector>,
    second: Seq<Vector>,
)
    requires
        read.to_set() == reread.to_set(),
        distinct_paths(read),
        distinct_paths(reread),
        is_ordering(read, first),
        is_ordering(reread, second),
    ensures
        first == second,
{
    lemma_ordering_keys(read, first);
    lemma_ordering_keys(reread, second);
    assert forall|k: Seq<Seq<char>>| keys_of(read).to_set().contains(k) implies keys_of(reread).to_set().contains(k) by {
        let y = choose|y: int| 0 <= y < keys_of(read).len() && keys_of(read)[y] == k;
        assert(read.to_set().contains(read[y]));
        assert(reread.to_set().contains(read[y]));
        let z = choose|z: int| 0 <= z < reread.len() && reread[z] == read[y];
        assert(keys_of(reread)[z] == k);
    }
    assert forall|k: Seq<Seq<char>>| keys_of(reread).to_set().contains(k) implies keys_of(read).to_set().contains(k) by {
        let y = choose|y: int| 0 <= y < keys_of(reread).len() && keys_of(reread)[y] == k;
        assert(reread.to_set().contains(reread[y]));
        assert(read.to_set().contains(reread[y]));
        let z = choose|z: int| 0 <= z < read.len() && read[z] == reread[y];
        assert(keys_of(read)[z] == k);
    }
    assert(keys_of(first).to_set() =~= keys_of(second).to_set());
    lemma_increasing_keys_unique(keys_of(first), keys_of(second));
    assert forall|i: int| 0 <= i < first.len() implies first[i] == second[i] by {
        assert(keys_of(first)[i] == keys_of(second)[i]);
        assert(drawn_from(read, first[i]));
        assert(drawn_from(reread, second[i]));
        let a = choose|j: int| #[trigger] first_of_key(read, j) && first[i] == read[j];
        let b = choose|j: int| #[trigger] first_of_key(reread, j) && second[i] == reread[j];
        assert(read.to_set().contains(read[a]));
        assert(reread.to_set().contains(read[a]));
        let c = choose|c: int| 0 <= c < reread.len() && reread[c] == read[a];
        if c < b {
            assert(key_of(reread[c]) != key_of(reread[b]));
        }
        if b < c {
            assert(key_of(reread[b]) != key_of(reread[c]));
        }
    }
    assert(first =~= second);
}

/// Orders the sources by path, keeping the first of any that share one.
pub fn order_sources(sources: Vec<Vector>) -> (res: Vec<Vector>)
    ensures
        is_ordering(sources@, res@),
{
    let ghost input = sources@;
    let mut rest = sources;
    let total = rest.len();
    let mut out: Vec<Vector> = Vec::new();
    let mut n: usize = 0;
    while rest.len() > 0
        invariant
            input.len() == total,
            input.len() == n + rest@.len(),
            rest@ == input.skip(n as int),
            is_ordering(input.take(n as int), out@),
        decreases rest@.len(),
    {
        let v = rest.remove(0);
        proof {
            assert(v == input[n as int]);
            assert(rest@ =~= input.skip(n as int + 1));
        }
        let mut pos: usize = 0;
        loop
            invariant
                pos <= out@.len(),
                forall|i: int, j: int| 0 <= i < j < out@.len() ==> key_lt(#[trigger] key_of(out@[i]), #[trigger] key_of(out@[j])),
                forall|j: int| 0 <= j < pos ==> key_lt(#[trigger] key_of(out@[j]), key_of(v)),
            ensures
                pos <= out@.len(),
                forall|j: int| 0 <= j < pos ==> key_lt(#[trigger] key_of(out@[j]), key_of(v)),
                pos == out@.len() || !key_lt(key_of(out@[pos as int]), key_of(v)),
            decreases out@.len() - pos,
        {
            if pos >= out.len() {
                break;
            }
            if !key_less(&out[pos].key, &v.key) {
                break;
            }
            pos = pos + 1;
        }
        let ghost before = out@;
        let ghost prefix = input.take(n as int);
        proof {
            lemma_key_order(key_of(v), key_of(v), key_of(v));
            assert(input.take(n as int + 1) =~= prefix.push(v));
        }
        if pos < out.len() && key_less(&v.key, &out[pos].key) == false {
            // Equal paths: the earlier source is kept.
            proof {
                lemma_key_order(key_of(out@[pos as int]), key_of(v), key_of(v));
                assert(key_of(out@[pos as int]) == key_of(v));
                let q = prefix.push(v);
                assert forall|j: int| 0 <= j < q.len() implies #[trigger] has_key(out@, key_of(q[j])) by {
                    if j < prefix.len() {
                        assert(q[j] == prefix[j]);
                        assert(has_key(out@, key_of(prefix[j])));
                    } else {
                        assert(key_of(out@[pos as int]) == key_of(q[j]));
                    }
                }
                assert forall|k: int| 0 <= k < out@.len() implies #[trigger] drawn_from(q, out@[k]) by {
                    assert(drawn_from(prefix, out@[k]));
                    let j = choose|j: int| #[trigger] first_of_key(prefix, j) && out@[k] == prefix[j];
                    assert(q[j] == prefix[j]);
                    assert forall|i: int| 0 <= i < j implies key_of(q[i]) != key_of(q[j]) by {
                        assert(q[i] == prefix[i]);
                    }
                    assert(first_of_key(q, j));
                }
            }
        } else {
            proof {
                if pos < out@.len() {
                    lemma_key_order(key_of(out@[pos as int]), key_of(v), key_of(v));
                    assert(key_of(out@[pos as int]) != key_of(v));
                    lemma_key_order(key_of(v), key_of(out@[pos as int]), key_of(v));
                    assert(key_lt(key_of(v), key_of(out@[pos as int])));
                }
                // No earlier source has this path.
                assert forall|i: int| 0 <= i < prefix.len() implies key_of(prefix[i]) != key_of(v) by {
                    assert(has_key(before, key_of(prefix[i])));
                    let k = choose|k: int| 0 <= k < before.len() && key_of(before[k]) == key_of(prefix[i]);
                    if k < pos {
                        assert(key_lt(key_of(before[k]), key_of(v)));
                    } else {
                        if k > pos {
                            assert(key_lt(key_of(before[pos as int]), key_of(before[k])));
                            lemma_key_order(key_of(v), key_of(before[pos as int]), key_of(before[k]));
                        }
                    }
                }
            }
            out.insert(pos, v);
            proof {
                let q = prefix.push(input[n as int]);
                let after = out@;
                assert(after =~= before.insert(pos as int, input[n as int]));
                assert forall|a: int, b: int| 0 <= a < b < after.len() implies key_lt(#[trigger] key_of(after[a]), #[trigger] key_of(after[b])) by {
                    if b < pos {
                        assert(after[a] == before[a]);
                        assert(after[b] == before[b]);
                    } else if a < pos && b == pos {
                        assert(after[a] == before[a]);
                    } else if a < pos && b > pos {
                        assert(after[a] == before[a]);
                        assert(after[b] == before[b - 1]);
                        lemma_key_order(key_of(before[a]), key_of(input[n as int]), key_of(before[b - 1]));
                        if b - 1 > pos {
                            assert(key_lt(key_of(before[pos as int]), key_of(before[b - 1])));
                            lemma_key_order(key_of(input[n as int]), key_of(before[pos as int]), key_of(before[b - 1]));
                        }
                    } else if a == pos {
                        assert(after[b] == before[b - 1]);
                        if b - 1 > pos {
                            assert(key_lt(key_of(before[pos as int]), key_of(before[b - 1])));
                            lemma_key_order(key_of(input[n as int]), key_of(before[pos as int]), key_of(before[b - 1]));
                        }
                    } else {
                        assert(after[a] == before[a - 1]);
                        assert(after[b] == before[b - 1]);
                    }
                }
                assert forall|j: int| 0 <= j < q.len() implies #[trigger] has_key(after, key_of(q[j])) by {
                    if j < prefix.len() {
                        assert(q[j] == prefix[j]);
                        assert(has_key(before, key_of(prefix[j])));
                        let k = choose|k: int| 0 <= k < before.len() && key_of(before[k]) == key_of(prefix[j]);
                        if k < pos {
                            assert(after[k] == before[k]);
                        } else {
                            assert(after[k + 1] == before[k]);
                        }
                    } else {
                        assert(after[pos as int] == q[j]);
                    }
                }
                assert forall|k: int| 0 <= k < after.len() implies #[trigger] drawn_from(q, after[k]) by {
                    if k == pos {
                        assert(after[k] == q[n as int]);
                        assert forall|i: int| 0 <= i < n implies key_of(q[i]) != key_of(q[n as int]) by {
                            assert(q[i] == prefix[i]);
                        }
                        assert(first_of_key(q, n as int));
                    } else {
                        let old_k = if k < pos { k } else { k - 1 };
                        assert(after[k] == before[old_k]);
                        assert(drawn_from(prefix, before[old_k]));
                        let j = choose|j: int| #[trigger] first_of_key(prefix, j) && before[old_k] == prefix[j];
                        assert(q[j] == prefix[j]);
                        assert forall|i: int| 0 <= i < j implies key_of(q[i]) != key_of(q[j]) by {
                            assert(q[i] == prefix[i]);
                        }
                        assert(first_of_key(q, j));
                    }
                }
            }
        }
        n = n + 1;
    }
    proof { assert(input.take(n as int) =~= input); }
    out
}

/// The ids of the kept vectors, in order.
pub open spec fn kept_ids(kept: Seq<Vector>) -> Seq<Seq<char>> {
    kept.map_values(|v: Vector| v.document.id@)
}

/// What building the corpus from `entries`, in order, gives: the vectors kept, the
/// `(id, method)` of each profile-independent vector excluded because the profile does
/// not declare its method, and every finding.
pub open spec fn corpus_fold(bundle: ProfileBundle, entries: Seq<Vector>) -> (Seq<Vector>, Seq<(Seq<char>, Seq<char>)>, Seq<Finding>)
    decreases entries.len(),
{
    if entries.len() == 0 {
        (seq![], seq![], seq![])
    } else {
        let (kept, skipped, findings) = corpus_fold(bundle, entries.drop_last());
        let e = entries.last();
        let doc = e.document;
        if doc.profile@ == "*"@ && first_with_id(method_ids(bundle.spec_documents().methods.methods@), doc.method@) is None {
            (kept, skipped.push((doc.id@, doc.method@)), findings.push(warning_finding(ErrorClass::VectorError,
                "vector "@ + debug_text(doc.id@) + " is profile-independent and exercises the method "@ + debug_text(doc.method@)
                    + ", which this profile does not declare; it does not apply and was not added to the corpus"@)))
        } else {
            (kept.push(e), skipped, findings
                + (if kept_ids(kept).contains(doc.id@) {
                    seq![error_finding(ErrorClass::VectorError, "two vectors declare the identifier "@ + debug_text(doc.id@)
                        + "; a report naming it could not say which result it meant"@, seq![])]
                } else { seq![] })
                + spec_validate(bundle, doc))
        }
    }
}

/// A profile's vectors, checked against it.
#[derive(Debug)]
pub struct VectorCorpus {
    vectors: Vec<Vector>,
    skipped: Vec<(String, String)>,
    diagnostics: Diagnostics,
}

/// The `(id, method)` pairs, as values.
pub open spec fn pairs_view(pairs: Seq<(String, String)>) -> Seq<(Seq<char>, Seq<char>)> {
    pairs.map_values(|p: (String, String)| (p.0@, p.1@))
}

impl VectorCorpus {
    /// The vectors, in path order.
    pub closed spec fn spec_vectors(&self) -> Seq<Vector> {
        self.vectors@
    }

    /// The excluded profile-independent vectors, as `(id, method)`.
    pub closed spec fn spec_skipped(&self) -> Seq<(Seq<char>, Seq<char>)> {
        pairs_view(self.skipped@)
    }

    /// The warnings the corpus was accepted with.
    pub closed spec fn spec_findings(&self) -> Seq<Finding> {
        self.diagnostics@
    }

    /// Builds the corpus from the vectors read from the bundle's declared directories
    /// and families: ordered by path with repeated paths dropped, each checked against
    /// the bundle, and refused with the first error-severity finding when there is one.
    pub fn assemble(bundle: &ProfileBundle, sources: Vec<Vector>) -> (res: Result<Self, Failure>)
        ensures
            exists|ordered: Seq<Vector>| #[trigger] is_ordering(sources@, ordered) && {
                let (kept, skipped, findings) = corpus_fold(*bundle, ordered);
                match res {
                    Ok(corpus) => no_errors(findings) && corpus.spec_vectors() == kept
                        && corpus.spec_skipped() == skipped && corpus.spec_findings() == findings,
                    Err(f) => exists|i: int| #[trigger] is_first_error(findings, i) && f.class == findings[i].class
                        && f.message@ == findings[i].message && context_view(f.context@) == findings[i].context,
                }
            },
    {
        let ghost input = sources@;
        let ordered = order_sources(sources);
        let ghost entries = ordered@;
        let mut rest = ordered;
        let mut vectors: Vec<Vector> = Vec::new();
        let mut skipped: Vec<(String, String)> = Vec::new();
        let mut diagnostics = Diagnostics::new();
        let mut ids: Vec<String> = Vec::new();
        let mut n: usize = 0;
        let total = rest.len();
        proof {
            assert(entries.take(0) =~= Seq::<Vector>::empty());
            assert(pairs_view(skipped@) =~= Seq::<(Seq<char>, Seq<char>)>::empty());
        }
        while rest.len() > 0
            invariant
                entries.len() == total,
                entries.len() == n + rest@.len(),
                rest@ == entries.skip(n as int),
                texts(ids@) == kept_ids(vectors@),
                ({
                    let (kept, sk, findings) = corpus_fold(*bundle, entries.take(n as int));
                    vectors@ == kept && pairs_view(skipped@) == sk && diagnostics@ == findings
                }),
            decreases rest@.len(),
        {
            let v = rest.remove(0);
            proof {
                assert(v == entries[n as int]);
                assert(rest@ =~= entries.skip(n as int + 1));
                assert(entries.take(n as int + 1).drop_last() =~= entries.take(n as int));
                assert(entries.take(n as int + 1).last() == v);
            }
            let ghost (kept0, sk0, f0) = corpus_fold(*bundle, entries.take(n as int));
            let wildcard = str_eq(v.document.profile.as_str(), "*");
            let declared = bundle.documents().method(v.document.method.as_str()).is_some();
            if wildcard && !declared {
                let mut message = owned("vector ");
                push_str(&mut message, quoted(v.document.id.as_str()).as_str());
                push_str(&mut message, " is profile-independent and exercises the method ");
                push_str(&mut message, quoted(v.document.method.as_str()).as_str());
                push_str(&mut message, ", which this profile does not declare; it does not apply and was not added to the corpus");
                diagnostics.push(Diagnostic::warning(ErrorClass::VectorError, message));
                let ghost before = skipped@;
                skipped.push((v.document.id.clone(), v.document.method.clone()));
                proof { assert(pairs_view(skipped@) =~= pairs_view(before).push((v.document.id@, v.document.method@))); }
            } else {
                if contains_text(&ids, v.document.id.as_str()) {
                    let mut message = owned("two vectors declare the identifier ");
                    push_str(&mut message, quoted(v.document.id.as_str()).as_str());
                    push_str(&mut message, "; a report naming it could not say which result it meant");
                    diagnostics.push(Diagnostic::error(ErrorClass::VectorError, message));
                }
                let ghost mid = diagnostics@;
                let found = validate(bundle, &v.document);
                diagnostics.append(found);
                let ghost before_ids = ids@;
                ids.push(v.document.id.clone());
                let ghost before = vectors@;
                vectors.push(v);
                proof {
                    assert(texts(ids@) =~= texts(before_ids).push(v.document.id@));
                    assert(kept_ids(vectors@) =~= kept_ids(before).push(v.document.id@));
                }
            }
            proof {
                assert(first_with_id(method_ids(bundle.spec_documents().methods.methods@), v.document.method@) is None <==> !declared);
                let (kept1, sk1, f1) = corpus_fold(*bundle, entries.take(n as int + 1));
                assert(vectors@ =~= kept1);
                assert(pairs_view(skipped@) =~= sk1);
                assert(diagnostics@ =~= f1);
            }
            n = n + 1;
        }
        proof { assert(entries.take(n as int) =~= entries); }
        match into_result(&diagnostics) {
            Ok(()) => Ok(VectorCorpus { vectors, skipped, diagnostics }),
            Err(f) => Err(f),
        }
    }

    /// The vectors, in path order.
    pub fn vectors(&self) -> (res: &Vec<Vector>)
        ensures
            res@ == self.spec_vectors(),
    {
        &self.vectors
    }

    /// How many vectors the corpus holds.
    pub fn len(&self) -> (res: usize)
        ensures
            res == self.spec_vectors().len(),
    {
        self.vectors.len()
    }

    /// Whether the corpus holds no vector.
    pub fn is_empty(&self) -> (res: bool)
        ensures
            res == (self.spec_vectors().len() == 0),
    {
        self.vectors.len() == 0
    }

    /// The first vector with the identifier.
    pub fn by_id(&self, id: &str) -> (res: Option<&Vector>)
        ensures
            match res {
                Some(v) => exists|i: int| 0 <= i < self.spec_vectors().len() && *v == self.spec_vectors()[i]
                    && self.spec_vectors()[i].document.id@ == id@
                    && forall|j: int| 0 <= j < i ==> self.spec_vectors()[j].document.id@ != id@,
                None => forall|j: int| 0 <= j < self.spec_vectors().len() ==> self.spec_vectors()[j].document.id@ != id@,
            },
    {
        let mut i: usize = 0;
        while i < self.vectors.len()
            invariant
                i <= self.vectors@.len(),
                forall|j: int| 0 <= j < i ==> self.vectors@[j].document.id@ != id@,
            decreases self.vectors@.len() - i,
        {
            if str_eq(self.vectors[i].document.id.as_str(), id) {
                return Some(&self.vectors[i]);
            }
            i = i + 1;
        }
        None
    }

    /// The vectors carrying every one of `tags`, in corpus order.
    pub fn matching(&self, tags: &Vec<String>) -> (res: Vec<&Vector>)
        ensures
            res@.map_values(|r: &Vector| *r) == self.spec_vectors().filter(|v: Vector| carries_all(v, texts(tags@))),
    {
        let mut out: Vec<&Vector> = Vec::new();
        let mut i: usize = 0;
        while i < self.vectors.len()
            invariant
                i <= self.vectors@.len(),
                out@.map_values(|r: &Vector| *r) == self.vectors@.take(i as int).filter(|v: Vector| carries_all(v, texts(tags@))),
            decreases self.vectors@.len() - i,
        {
            let v = &self.vectors[i];
            let mut all = true;
            let mut k: usize = 0;
            while k < tags.len()
                invariant
                    k <= tags@.len(),
                    all == forall|j: int| 0 <= j < k ==> texts(v.document.tags@).contains(#[trigger] texts(tags@)[j]),
                decreases tags@.len() - k,
            {
                proof { assert(texts(tags@)[k as int] == tags@[k as int]@); }
                let present = contains_text(&v.document.tags, tags[k].as_str());
                proof {
                    if !present {
                        assert(!texts(v.document.tags@).contains(texts(tags@)[k as int]));
                    }
                }
                if !present {
                    all = false;
                }
                k = k + 1;
            }
            proof {
                assert(self.vectors@.take(i as int + 1).drop_last() =~= self.vectors@.take(i as int));
                reveal(Seq::filter);
                assert(all == carries_all(*v, texts(tags@)));
            }
            let ghost before = out@;
            if all {
                out.push(v);
                proof { assert(out@.map_values(|r: &Vector| *r) =~= before.map_values(|r: &Vector| *r).push(*v)); }
            }
            i = i + 1;
        }
        proof { assert(self.vectors@.take(i as int) =~= self.vectors@); }
        out
    }

    /// The vectors exercising `method`, in corpus order.
    pub fn for_method(&self, method: &str) -> (res: Vec<&Vector>)
        ensures
            res@.map_values(|r: &Vector| *r) == self.spec_vectors().filter(|v: Vector| v.document.method@ == method@),
    {
        let mut out: Vec<&Vector> = Vec::new();
        let mut i: usize = 0;
        while i < self.vectors.len()
            invariant
                i <= self.vectors@.len(),
                out@.map_values(|r: &Vector| *r) == self.vectors@.take(i as int).filter(|v: Vector| v.document.method@ == method@),
            decreases self.vectors@.len() - i,
        {
            proof {
                assert(self.vectors@.take(i as int + 1).drop_last() =~= self.vectors@.take(i as int));
                reveal(Seq::filter);
            }
            let ghost before = out@;
            if str_eq(self.vectors[i].document.method.as_str(), method) {
                out.push(&self.vectors[i]);
                proof { assert(out@.map_values(|r: &Vector| *r) =~= before.map_values(|r: &Vector| *r).push(self.vectors@[i as int])); }
            }
            i = i + 1;
        }
        proof { assert(self.vectors@.take(i as int) =~= self.vectors@); }
        out
    }

    /// The excluded profile-independent vectors, as `(id, method)`.
    pub fn skipped(&self) -> (res: &Vec<(String, String)>)
        ensures
            pairs_view(res@) == self.spec_skipped(),
    {
        &self.skipped
    }

    /// The warnings the corpus was accepted with.
    pub fn diagnostics(&self) -> (res: &Vec<Diagnostic>)
        ensures
            crate::taxonomy::findings_of(res@) == self.spec_findings(),
    {
        self.diagnostics.findings()
    }
}

/// Whether a vector carries every one of the tags.
pub open spec fn carries_all(v: Vector, tags: Seq<Seq<char>>) -> bool {
    forall|j: int| 0 <= j < tags.len() ==> texts(v.document.tags@).contains(#[trigger] tags[j])
}

} // verus!
