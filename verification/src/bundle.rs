//! A profile bundle, assembled from its documents.
//!
//! Reading the files is the caller's part; what is decided here is whether what was
//! read is a bundle this runner may execute: a format version it implements, no
//! document declared outside the bundle, and a location that agrees with the identity
//! the bundle declares. A profile is identified by `ID@VERSION` and never by a bare
//! identifier, because a bare identifier names whatever revision happens to be
//! current.
use vstd::prelude::*;

use crate::profile_model::{MethodsDocument, ProfileDocument, ProfileDocuments};
use crate::spec_version::{SpecVersion, check, format_refusal, spec_parse_version};
use crate::taxonomy::{
    Diagnostic, Diagnostics, ErrorClass, Failure, Finding, Severity, context_view, error_finding, into_result,
    is_first_error, no_errors, warning_finding,
};
use crate::references::{spec_validate, validate};
use crate::text::{chars_of, debug_text, owned, push_str, quoted, str_eq, text_from_chars};

verus! {

/// The entry point of every bundle.
pub const BUNDLE_ENTRY_POINT: &'static str = "profile.yaml";

/// The largest document a bundle may hold, in bytes.
pub const MAX_DOCUMENT_BYTES: u64 = 8388608;

/// A profile named by identifier and version.
#[derive(Debug, PartialEq, Eq, PartialOrd, Ord)]
pub struct ProfileReference {
    /// The profile's identifier.
    pub id: String,
    /// The profile's revision.
    pub version: String,
}

/// The position of the first `c` in `s`, where there is one.
pub open spec fn first_at(s: Seq<char>, c: char) -> Option<int> {
    if exists|k: int| 0 <= k < s.len() && s[k] == c {
        Some(choose|k: int| 0 <= k < s.len() && s[k] == c && forall|j: int| 0 <= j < k ==> s[j] != c)
    } else {
        None
    }
}

proof fn lemma_first_at(s: Seq<char>, c: char, k: int)
    requires
        0 <= k < s.len(),
        s[k] == c,
        forall|j: int| 0 <= j < k ==> s[j] != c,
    ensures
        first_at(s, c) == Some(k),
{
    let w = choose|w: int| 0 <= w < s.len() && s[w] == c && forall|j: int| 0 <= j < w ==> s[j] != c;
    assert(0 <= k < s.len() && s[k] == c && forall|j: int| 0 <= j < k ==> s[j] != c);
    if w < k {
        assert(s[w] != c);
    } else if w > k {
        assert(s[k] != c);
    }
}

/// The refusal of a reference without an `@`.
pub open spec fn unversioned_message(text: Seq<char>) -> Seq<char> {
    "a profile reference is written ID@VERSION, found "@ + debug_text(text)
        + "; a reference with no version names whatever the current revision happens to be"@
}

/// The refusal of a reference with an empty side.
pub open spec fn incomplete_message(text: Seq<char>) -> Seq<char> {
    "a profile reference must name both an identifier and a version, found "@ + debug_text(text)
}

impl ProfileReference {
    /// A reference to `id` at `version`.
    pub fn new(id: String, version: String) -> (res: Self)
        ensures
            res.id@ == id@,
            res.version@ == version@,
    {
        ProfileReference { id, version }
    }

    /// Reads `ID@VERSION`, split at the first `@`; a text without one, or with
    /// nothing on either side of it, is refused as a profile error.
    pub fn parse(text: &str) -> (res: Result<Self, Failure>)
        ensures
            match first_at(text@, '@') {
                None => res matches Err(f) && f.class == ErrorClass::ProfileError && f.message@ == unversioned_message(text@),
                Some(k) => if k == 0 || k + 1 == text@.len() {
                    res matches Err(f) && f.class == ErrorClass::ProfileError && f.message@ == incomplete_message(text@)
                } else {
                    res matches Ok(r) && r.id@ == text@.take(k) && r.version@ == text@.skip(k + 1)
                },
            },
    {
        let chars = chars_of(text);
        let mut k: usize = 0;
        while k < chars.len() && chars[k] != '@'
            invariant
                chars@ == text@,
                k <= chars@.len(),
                forall|j: int| 0 <= j < k ==> chars@[j] != '@',
            decreases chars@.len() - k,
        {
            k = k + 1;
        }
        if k >= chars.len() {
            let mut message = owned("a profile reference is written ID@VERSION, found ");
            push_str(&mut message, quoted(text).as_str());
            push_str(&mut message, "; a reference with no version names whatever the current revision happens to be");
            return Err(Failure::new(ErrorClass::ProfileError, message));
        }
        proof { lemma_first_at(text@, '@', k as int); }
        if k == 0 || k + 1 == chars.len() {
            let mut message = owned("a profile reference must name both an identifier and a version, found ");
            push_str(&mut message, quoted(text).as_str());
            return Err(Failure::new(ErrorClass::ProfileError, message));
        }
        let id = text_from_chars(&chars.as_slice()[0..k]);
        let mut rest: Vec<char> = Vec::new();
        let mut j: usize = k + 1;
        while j < chars.len()
            invariant
                k + 1 <= j <= chars@.len(),
                rest@ == chars@.subrange(k as int + 1, j as int),
            decreases chars@.len() - j,
        {
            rest.push(chars[j]);
            proof { assert(rest@ =~= chars@.subrange(k as int + 1, j as int + 1)); }
            j = j + 1;
        }
        let version = text_from_chars(rest.as_slice());
        proof {
            assert(chars@.subrange(0, k as int) =~= text@.take(k as int));
            assert(rest@ =~= text@.skip(k as int + 1));
        }
        Ok(ProfileReference { id, version })
    }

    /// The reference as it is written, `ID@VERSION`.
    pub fn to_text(&self) -> (res: String)
        ensures
            res@ == self.id@ + "@"@ + self.version@,
    {
        let mut out = self.id.clone();
        push_str(&mut out, "@");
        push_str(&mut out, self.version.as_str());
        out
    }
}

/// Whether a document path declared in a bundle points outside it: an absolute path,
/// or one with a `..` component.
pub open spec fn escapes(file: Seq<char>) -> bool {
    (file.len() > 0 && file[0] == '/') || exists|a: int| #[trigger] parent_component_at(file, a)
}

/// Whether a `..` component starts at position `a`.
pub open spec fn parent_component_at(file: Seq<char>, a: int) -> bool {
    &&& 0 <= a && a + 2 <= file.len()
    &&& file.subrange(a, a + 2) == ".."@
    &&& (a == 0 || file[a - 1] == '/')
    &&& (a + 2 == file.len() || file[a + 2] == '/')
}

/// Decides whether a declared document path points outside the bundle.
pub fn path_escapes(file: &str) -> (res: bool)
    ensures
        res == escapes(file@),
{
    let chars = chars_of(file);
    proof { reveal_strlit(".."); }
    if chars.len() > 0 && chars[0] == '/' {
        return true;
    }
    let mut a: usize = 0;
    while a < chars.len() && chars.len() - a >= 2
        invariant
            chars@ == file@,
            a <= chars@.len(),
            forall|x: int| 0 <= x < a ==> !#[trigger] parent_component_at(chars@, x),
        decreases chars@.len() - a,
    {
        let b = a + 2;
        let dots = chars[a] == '.' && chars[a + 1] == '.';
        let before = a == 0 || chars[a - 1] == '/';
        let after = b == chars.len() || chars[b] == '/';
        proof {
            reveal_strlit("..");
            assert(dots == (chars@.subrange(a as int, a as int + 2) == ".."@)) by {
                if dots {
                    assert(chars@.subrange(a as int, a as int + 2) =~= ".."@);
                } else if chars@.subrange(a as int, a as int + 2) == ".."@ {
                    assert(chars@.subrange(a as int, a as int + 2)[0] == '.');
                    assert(chars@.subrange(a as int, a as int + 2)[1] == '.');
                }
            }
        }
        if dots && before && after {
            proof { assert(parent_component_at(chars@, a as int)); }
            return true;
        }
        a = a + 1;
    }
    proof {
        assert forall|x: int| !#[trigger] parent_component_at(chars@, x) by {
            if 0 <= x < a {
            }
        }
    }
    false
}

/// The refusal of a document declared outside the bundle.
pub open spec fn outside_message(role: Seq<char>, file: Seq<char>) -> Seq<char> {
    "the "@ + role + " document is declared as "@ + debug_text(file) + ", which points outside the bundle"@
}

/// The path of a declared document inside the bundle at `root`, or the refusal of
/// one declared outside it, which names the bundle and the document.
pub fn resolve_document_path(root: &str, role: &str, file: &str) -> (res: Result<String, Failure>)
    ensures
        escapes(file@) ==> (res matches Err(f) && f.class == ErrorClass::ProfileError
            && f.message@ == outside_message(role@, file@)
            && context_view(f.context@) == seq![("bundle"@, root@), ("document"@, file@)]),
        !escapes(file@) ==> (res matches Ok(path) && path@ == joined_path(root@, file@)),
{
    if path_escapes(file) {
        let mut message = owned("the ");
        push_str(&mut message, role);
        push_str(&mut message, " document is declared as ");
        push_str(&mut message, quoted(file).as_str());
        push_str(&mut message, ", which points outside the bundle");
        let failure = Failure::new(ErrorClass::ProfileError, message)
            .with_context("bundle", owned(root))
            .with_context("document", owned(file));
        proof { assert(context_view(failure.context@) =~= seq![("bundle"@, root@), ("document"@, file@)]); }
        return Err(failure);
    }
    Ok(join_path(root, file))
}

/// `file` inside the directory `root`: joined with one `/`, or `file` alone under an
/// empty root.
pub open spec fn joined_path(root: Seq<char>, file: Seq<char>) -> Seq<char> {
    if root.len() == 0 {
        file
    } else if root.last() == '/' {
        root + file
    } else {
        root + "/"@ + file
    }
}

/// Joins a relative path onto a directory.
pub fn join_path(root: &str, file: &str) -> (res: String)
    ensures
        res@ == joined_path(root@, file@),
{
    let chars = chars_of(root);
    if chars.len() == 0 {
        return owned(file);
    }
    let mut out = owned(root);
    if chars[chars.len() - 1] != '/' {
        push_str(&mut out, "/");
    }
    push_str(&mut out, file);
    out
}

/// The finding about where a bundle is stored: an error when it sits in a directory
/// named for its version under a parent that is not named for its identifier, a
/// warning when it is not in the `profiles/<id>/<version>/` layout at all, and nothing
/// when it is where its identity says.
pub open spec fn spec_layout(root: Seq<char>, directory: Seq<char>, parent: Seq<char>, id: Seq<char>, version: Seq<char>) -> Seq<Finding> {
    if directory == version {
        if parent != id {
            seq![error_finding(ErrorClass::ProfileError,
                "the bundle is stored under "@ + parent + "/"@ + directory + " but declares "@ + id + "@"@ + version
                    + "; resolving "@ + id + "@"@ + version + " by path would not reach this directory"@, seq![])]
        } else {
            seq![]
        }
    } else {
        seq![warning_finding(ErrorClass::ProfileError,
            "the bundle is at "@ + root + " rather than profiles/<id>/<version>/; a consumer resolving "@ + id + "@"@
                + version + " by path would not find it here"@)]
    }
}

/// Checks that a bundle is stored where its identity says: `directory` is the name of
/// the bundle's own directory and `parent` that of the directory holding it.
pub fn check_layout(root: &str, directory: &str, parent: &str, document: &ProfileDocument, diagnostics: &mut Diagnostics)
    ensures
        final(diagnostics)@ == old(diagnostics)@ + spec_layout(root@, directory@, parent@, document.profile.id@, document.profile.version@),
{
    let id = document.profile.id.as_str();
    let version = document.profile.version.as_str();
    if str_eq(directory, version) {
        if !str_eq(parent, id) {
            let mut message = owned("the bundle is stored under ");
            push_str(&mut message, parent);
            push_str(&mut message, "/");
            push_str(&mut message, directory);
            push_str(&mut message, " but declares ");
            push_str(&mut message, id);
            push_str(&mut message, "@");
            push_str(&mut message, version);
            push_str(&mut message, "; resolving ");
            push_str(&mut message, id);
            push_str(&mut message, "@");
            push_str(&mut message, version);
            push_str(&mut message, " by path would not reach this directory");
            let ghost before = diagnostics@;
            diagnostics.push(Diagnostic::error(ErrorClass::ProfileError, message));
            proof { assert(diagnostics@ =~= before + spec_layout(root@, directory@, parent@, id@, version@)); }
        } else {
            proof { assert(old(diagnostics)@ =~= old(diagnostics)@ + Seq::<Finding>::empty()); }
        }
        return;
    }
    let mut message = owned("the bundle is at ");
    push_str(&mut message, root);
    push_str(&mut message, " rather than profiles/<id>/<version>/; a consumer resolving ");
    push_str(&mut message, id);
    push_str(&mut message, "@");
    push_str(&mut message, version);
    push_str(&mut message, " by path would not find it here");
    let ghost before = diagnostics@;
    diagnostics.warning(ErrorClass::ProfileError, message);
    proof { assert(diagnostics@ =~= before + spec_layout(root@, directory@, parent@, id@, version@)); }
}

/// Checks, in manifest order, that no declared document points outside the bundle at
/// `root`; the first one that does is refused.
pub fn check_inside(root: &str, document: &ProfileDocument) -> (res: Result<(), Failure>)
    ensures
        match first_escaping(manifest_files(*document)) {
            None => res is Ok,
            Some(k) => res matches Err(f) && f.class == ErrorClass::ProfileError
                && f.message@ == outside_message(manifest_files(*document)[k].0, manifest_files(*document)[k].1),
        },
{
    let files = document.includes.files();
    let ghost all = manifest_files(*document);
    proof {
        reveal_strlit("methods");
        reveal_strlit("authorization");
        reveal_strlit("events");
        reveal_strlit("behavior");
        reveal_strlit("invariants");
        reveal_strlit("failures");
    }
    let mut k: usize = 0;
    while k < 6
        invariant
            k <= 6,
            all == manifest_files(*document),
            all.len() == 6,
            forall|j: int| 0 <= j < 6 ==> (#[trigger] all[j]).0 == files[j].0@ && all[j].1 == files[j].1@,
            forall|j: int| 0 <= j < k ==> !escapes(#[trigger] all[j].1),
        decreases 6 - k,
    {
        let (role, file) = files[k];
        match resolve_document_path(root, role, file) {
            Ok(_) => {},
            Err(f) => {
                proof {
                    assert(escapes(all[k as int].1));
                    assert(first_escaping(all) is Some);
                    let c = first_escaping(all)->0;
                    assert(escapes(all[c].1));
                    if c < k {
                    } else if c > k {
                        assert(!escapes(all[k as int].1));
                    }
                    assert(c == k);
                }
                return Err(f);
            },
        }
        k = k + 1;
    }
    proof { assert(first_escaping(all) is None); }
    Ok(())
}

/// A profile bundle that was read, checked and accepted.
#[derive(Debug)]
pub struct ProfileBundle {
    root: String,
    document: ProfileDocument,
    documents: ProfileDocuments,
    spec_version: SpecVersion,
    diagnostics: Diagnostics,
}

/// The roles and declared paths of a manifest's six documents, in order.
pub open spec fn manifest_files(document: ProfileDocument) -> Seq<(Seq<char>, Seq<char>)> {
    let m = document.includes;
    seq![("methods"@, m.methods@), ("authorization"@, m.authorization@), ("events"@, m.events@),
        ("behavior"@, m.behavior@), ("invariants"@, m.invariants@), ("failures"@, m.failures@)]
}

/// The position of the first declared document that points outside the bundle.
pub open spec fn first_escaping(files: Seq<(Seq<char>, Seq<char>)>) -> Option<int> {
    if exists|k: int| 0 <= k < files.len() && escapes(files[k].1) {
        Some(choose|k: int| 0 <= k < files.len() && escapes(files[k].1) && forall|j: int| 0 <= j < k ==> !escapes(files[j].1))
    } else {
        None
    }
}

/// What a bundle is accepted with or refused for once its documents are read: every
/// cross-reference defect in the six documents, then the finding about its location.
pub open spec fn bundle_findings(root: Seq<char>, directory: Seq<char>, parent: Seq<char>, document: ProfileDocument, documents: ProfileDocuments) -> Seq<Finding> {
    spec_validate(documents) + spec_layout(root, directory, parent, document.profile.id@, document.profile.version@)
}

/// Whether the entry point declares the format version this runner implements.
pub open spec fn supported_format(document: ProfileDocument) -> bool {
    spec_parse_version(document.estamora_spec_version@) matches Some((major, minor)) && major == 1 && minor == 0
}

/// Whether a bundle whose entry point is `document` is accepted once its location is
/// known: its format version is supported, no document escapes it, and neither its
/// documents nor its layout raise an error.
pub open spec fn accepted(root: Seq<char>, directory: Seq<char>, parent: Seq<char>, document: ProfileDocument, documents: ProfileDocuments) -> bool {
    &&& supported_format(document)
    &&& first_escaping(manifest_files(document)) is None
    &&& no_errors(bundle_findings(root, directory, parent, document, documents))
}

impl ProfileBundle {
    /// Where the bundle was read from.
    pub closed spec fn spec_root(&self) -> Seq<char> {
        self.root@
    }

    /// The entry point.
    pub closed spec fn spec_document(&self) -> ProfileDocument {
        self.document
    }

    /// The six requirement layers.
    pub closed spec fn spec_documents(&self) -> ProfileDocuments {
        self.documents
    }

    /// The format version.
    pub closed spec fn spec_format(&self) -> SpecVersion {
        self.spec_version
    }

    /// The warnings the bundle was accepted with.
    pub closed spec fn spec_findings(&self) -> Seq<Finding> {
        self.diagnostics@
    }

    /// Accepts a bundle read from `root`, whose directory is named `directory` and
    /// sits in one named `parent`. Refused, in this order, are a format version this
    /// runner does not implement, a document declared outside the bundle (the first
    /// one, in manifest order), and then the first error among the documents'
    /// cross-reference defects and the bundle's location; a bundle outside the
    /// canonical layout is accepted with a warning.
    pub fn assemble(
        root: String,
        directory: &str,
        parent: &str,
        document: ProfileDocument,
        documents: ProfileDocuments,
    ) -> (res: Result<Self, Failure>)
        ensures
            res is Ok <==> accepted(root@, directory@, parent@, document, documents),
            res matches Ok(bundle) ==> bundle.spec_root() == root@ && bundle.spec_document() == document
                && bundle.spec_documents() == documents
                && bundle.spec_format().spec_major() == 1 && bundle.spec_format().spec_minor() == 0
                && bundle.spec_findings() == bundle_findings(root@, directory@, parent@, document, documents),
            !supported_format(document) ==> (res matches Err(f) && format_refusal(document.estamora_spec_version@, f)),
            supported_format(document) ==> match first_escaping(manifest_files(document)) {
                Some(k) => res matches Err(f) && f.class == ErrorClass::ProfileError
                    && f.message@ == outside_message(manifest_files(document)[k].0, manifest_files(document)[k].1),
                None => res matches Err(f) ==> exists|i: int| #[trigger] is_first_error(bundle_findings(root@, directory@, parent@, document, documents), i)
                    && f.class == bundle_findings(root@, directory@, parent@, document, documents)[i].class
                    && f.message@ == bundle_findings(root@, directory@, parent@, document, documents)[i].message,
            },
    {
        let spec_version = match check(document.estamora_spec_version.as_str()) {
            Ok(v) => v,
            Err(f) => return Err(f),
        };
        match check_inside(root.as_str(), &document) {
            Ok(()) => {},
            Err(f) => return Err(f),
        }
        proof { assert(first_escaping(manifest_files(document)) is None); }
        let mut diagnostics = validate(&documents);
        check_layout(root.as_str(), directory, parent, &document, &mut diagnostics);
        let ghost findings = bundle_findings(root@, directory@, parent@, document, documents);
        proof { assert(diagnostics@ =~= findings); }
        match into_result(&diagnostics) {
            Ok(()) => {},
            Err(f) => {
                proof {
                    let i = choose|i: int| #[trigger] is_first_error(diagnostics@, i)
                        && f.class == diagnostics@[i].class && f.message@ == diagnostics@[i].message;
                    assert(diagnostics@[i].severity == Severity::Error);
                    assert(is_first_error(findings, i));
                }
                return Err(f);
            },
        }
        Ok(ProfileBundle { root, document, documents, spec_version, diagnostics })
    }

    /// Where the bundle was read from.
    pub fn root(&self) -> (res: &str)
        ensures
            res@ == self.spec_root(),
    {
        self.root.as_str()
    }

    /// The entry point.
    pub fn document(&self) -> (res: &ProfileDocument)
        ensures
            *res == self.spec_document(),
    {
        &self.document
    }

    /// The six requirement layers.
    pub fn documents(&self) -> (res: &ProfileDocuments)
        ensures
            *res == self.spec_documents(),
    {
        &self.documents
    }

    /// The method layer.
    pub fn methods(&self) -> (res: &MethodsDocument)
        ensures
            *res == self.spec_documents().methods,
    {
        &self.documents.methods
    }

    /// `ID@VERSION` of the profile.
    pub fn reference(&self) -> (res: ProfileReference)
        ensures
            res.id@ == self.spec_document().profile.id@,
            res.version@ == self.spec_document().profile.version@,
    {
        ProfileReference::new(self.document.profile.id.clone(), self.document.profile.version.clone())
    }

    /// The format version the bundle is written against.
    pub fn spec_version(&self) -> (res: SpecVersion)
        ensures
            res == self.spec_format(),
    {
        self.spec_version
    }

    /// The format version as the bundle spells it.
    pub fn spec_version_text(&self) -> (res: &str)
        ensures
            res@ == self.spec_document().estamora_spec_version@,
    {
        self.document.estamora_spec_version.as_str()
    }

    /// The directories of the bundle's own vectors, as the entry point declares them.
    pub fn vector_directories(&self) -> (res: &Vec<String>)
        ensures
            *res == self.spec_document().includes.vectors,
    {
        &self.document.includes.vectors
    }

    /// The families of the shared vector library the bundle consumes.
    pub fn shared_vector_families(&self) -> (res: &Vec<String>)
        ensures
            *res == self.spec_document().includes.shared_vectors,
    {
        &self.document.includes.shared_vectors
    }

    /// The warnings the bundle was accepted with.
    pub fn diagnostics(&self) -> (res: &Vec<Diagnostic>)
        ensures
            crate::taxonomy::findings_of(res@) == self.spec_findings(),
    {
        self.diagnostics.findings()
    }
}

} // verus!
