//! The artifact inspector: which test-export convention does a compiled
//! module follow?

use crate::model::ExecutionKind;
use crate::text::{
    begins_with, chars_of, contains_from, contains_text, lemma_occurs_from_is_in_rest, matches_at,
    names_view, same_text,
};
use vstd::prelude::*;

verus! {

/// A compiled test module: where it lies, and the names it exports.
#[derive(Clone, Debug, PartialEq, Eq)]
pub struct TestArtifact {
    path: String,
    exports: Vec<String>,
}

/// Why a module could not be classified.
#[derive(Clone, Copy, Debug, PartialEq, Eq, Structural)]
pub enum ClassificationFailure {
    /// No export follows any convention that the runner knows.
    NoTestsFound,
}

impl TestArtifact {
    /// The location of the module.
    pub closed spec fn location(&self) -> Seq<char> {
        self.path@
    }

    /// The names that the module exports, in the order of its export table.
    pub closed spec fn export_names(&self) -> Seq<Seq<char>> {
        names_view(self.exports@)
    }

    /// The module at `path` whose export table holds `exports`.
    pub fn new(path: String, exports: Vec<String>) -> (artifact: TestArtifact)
        ensures
            artifact.location() == path@,
            artifact.export_names() == names_view(exports@),
    {
        TestArtifact { path, exports }
    }

    /// The location of the module.
    pub fn path(&self) -> (path: &str)
        ensures
            path@ == self.location(),
    {
        self.path.as_str()
    }

    /// The names that the module exports.
    pub fn exports(&self) -> (exports: &Vec<String>)
        ensures
            names_view(exports@) == self.export_names(),
    {
        &self.exports
    }
}

/// An export by which the test framework registers a test.
pub open spec fn is_registration(name: Seq<char>) -> bool {
    begins_with(name, "__wbgt_"@)
}

/// The entry point of a documentation test that was compiled on its own.
pub open spec fn is_main(name: Seq<char>) -> bool {
    name == "main"@
}

/// A name inside the namespace that begins with `prefix`, with a
/// documentation test among the path segments that follow the prefix.
pub open spec fn is_member_of(name: Seq<char>, prefix: Seq<char>) -> bool {
    begins_with(name, prefix) && contains_text(name.skip(prefix.len() as int), "__doctest_"@)
}

/// A member of a bundle of merged documentation tests.
pub open spec fn is_merged_doctest(name: Seq<char>) -> bool {
    is_member_of(name, "doctest_bundle_"@) || is_member_of(name, "doctest_runner_"@)
}

/// Some name among `names` is a registration export.
pub open spec fn has_registration(names: Seq<Seq<char>>) -> bool {
    exists|i: int| 0 <= i < names.len() && is_registration(#[trigger] names[i])
}

/// Some name among `names` is `main`.
pub open spec fn has_main(names: Seq<Seq<char>>) -> bool {
    exists|i: int| 0 <= i < names.len() && is_main(#[trigger] names[i])
}

/// Some name among `names` belongs to a bundle of merged documentation tests.
pub open spec fn has_merged_doctest(names: Seq<Seq<char>>) -> bool {
    exists|i: int| 0 <= i < names.len() && is_merged_doctest(#[trigger] names[i])
}

/// The convention that an export table follows.
///
/// A bundle namespace decides by itself, whatever else is exported, since a
/// module may hold ordinary tests beside its documentation tests. Without
/// one, `main` alone marks a documentation test, and registration exports
/// mark ordinary tests.
pub open spec fn classification(names: Seq<Seq<char>>) -> Result<
    ExecutionKind,
    ClassificationFailure,
> {
    if has_merged_doctest(names) {
        Ok(ExecutionKind::MergedDoctest)
    } else if has_registration(names) {
        Ok(ExecutionKind::Ordinary)
    } else if has_main(names) {
        Ok(ExecutionKind::SingleDoctest)
    } else {
        Err(ClassificationFailure::NoTestsFound)
    }
}

/// Whether `name` lies in the namespace `prefix` and names a documentation
/// test there.
fn member_of(name: &Vec<char>, prefix: &Vec<char>, marker: &Vec<char>) -> (b: bool)
    requires
        marker@ == "__doctest_"@,
    ensures
        b == is_member_of(name@, prefix@),
{
    if matches_at(name, prefix, 0) {
        proof {
            lemma_occurs_from_is_in_rest(name@, marker@, prefix@.len() as int);
        }
        contains_from(name, marker, prefix.len())
    } else {
        false
    }
}

/// The sections of which the run of a module consists, in the order in which
/// they are run and reported: the ordinary tests that the module registers,
/// unless only documentation tests are asked for, and then its documentation
/// tests. A module that cannot be classified has none.
pub open spec fn planned_sections(names: Seq<Seq<char>>, only_doctests: bool) -> Seq<ExecutionKind> {
    let ordinary = if has_registration(names) && !only_doctests {
        seq![ExecutionKind::Ordinary]
    } else {
        Seq::empty()
    };
    match classification(names) {
        Ok(ExecutionKind::Ordinary) => ordinary,
        Ok(ExecutionKind::SingleDoctest) => seq![ExecutionKind::SingleDoctest],
        Ok(ExecutionKind::MergedDoctest) => ordinary.push(ExecutionKind::MergedDoctest),
        Err(_) => Seq::empty(),
    }
}

/// What an export table holds of each convention.
struct Survey {
    merged: bool,
    registered: bool,
    plain_main: bool,
}

/// Looks through the export table for each convention.
fn survey(exports: &Vec<String>) -> (found: Survey)
    ensures
        found.merged == has_merged_doctest(names_view(exports@)),
        found.registered == has_registration(names_view(exports@)),
        found.plain_main == has_main(names_view(exports@)),
{
    let registration = chars_of("__wbgt_");
    let main = chars_of("main");
    let bundle = chars_of("doctest_bundle_");
    let runner = chars_of("doctest_runner_");
    let marker = chars_of("__doctest_");
    let ghost names = names_view(exports@);
    let mut merged = false;
    let mut registered = false;
    let mut plain_main = false;
    let mut i: usize = 0;
    while i < exports.len()
        invariant
            i <= exports.len(),
            names == names_view(exports@),
            registration@ == "__wbgt_"@,
            main@ == "main"@,
            bundle@ == "doctest_bundle_"@,
            runner@ == "doctest_runner_"@,
            marker@ == "__doctest_"@,
            merged == has_merged_doctest(names.take(i as int)),
            registered == has_registration(names.take(i as int)),
            plain_main == has_main(names.take(i as int)),
        decreases exports.len() - i,
    {
        let name = chars_of(exports[i].as_str());
        let is_merged = member_of(&name, &bundle, &marker) || member_of(&name, &runner, &marker);
        let is_reg = matches_at(&name, &registration, 0);
        let is_plain_main = same_text(&name, &main);
        proof {
            let before = names.take(i as int);
            let after = names.take(i + 1);
            assert(name@ == names[i as int]);
            assert(after[i as int] == names[i as int]);
            assert forall|k: int| 0 <= k < i implies before[k] == after[k] by {}
            assert(has_merged_doctest(after) == (has_merged_doctest(before) || is_merged)) by {
                if has_merged_doctest(before) {
                    let k = choose|k: int|
                        0 <= k < before.len() && is_merged_doctest(#[trigger] before[k]);
                    assert(is_merged_doctest(after[k]));
                }
                if has_merged_doctest(after) && !is_merged {
                    let k = choose|k: int|
                        0 <= k < after.len() && is_merged_doctest(#[trigger] after[k]);
                    assert(is_merged_doctest(before[k]));
                }
            }
            assert(has_registration(after) == (has_registration(before) || is_reg)) by {
                if has_registration(before) {
                    let k = choose|k: int|
                        0 <= k < before.len() && is_registration(#[trigger] before[k]);
                    assert(is_registration(after[k]));
                }
                if has_registration(after) && !is_reg {
                    let k = choose|k: int|
                        0 <= k < after.len() && is_registration(#[trigger] after[k]);
                    assert(is_registration(before[k]));
                }
            }
            assert(has_main(after) == (has_main(before) || is_plain_main)) by {
                if has_main(before) {
                    let k = choose|k: int| 0 <= k < before.len() && is_main(#[trigger] before[k]);
                    assert(is_main(after[k]));
                }
                if has_main(after) && !is_plain_main {
                    let k = choose|k: int| 0 <= k < after.len() && is_main(#[trigger] after[k]);
                    assert(is_main(before[k]));
                }
            }
        }
        merged = merged || is_merged;
        registered = registered || is_reg;
        plain_main = plain_main || is_plain_main;
        i += 1;
    }
    proof {
        assert(names.take(i as int) =~= names);
    }
    Survey { merged, registered, plain_main }
}

/// Classifies a module by the names it exports.
///
/// Fails with `NoTestsFound`, and only then, where no export follows a
/// convention that the runner knows.
pub fn classify(artifact: &TestArtifact) -> (kind: Result<ExecutionKind, ClassificationFailure>)
    ensures
        kind == classification(artifact.export_names()),
        kind is Err <==> !has_merged_doctest(artifact.export_names()) && !has_registration(
            artifact.export_names(),
        ) && !has_main(artifact.export_names()),
{
    let found = survey(&artifact.exports);
    if found.merged {
        Ok(ExecutionKind::MergedDoctest)
    } else if found.registered {
        Ok(ExecutionKind::Ordinary)
    } else if found.plain_main {
        Ok(ExecutionKind::SingleDoctest)
    } else {
        Err(ClassificationFailure::NoTestsFound)
    }
}

/// The sections of which the run of a module consists, in order. A module
/// that holds ordinary tests beside a bundle of documentation tests gives
/// two sections, unless only documentation tests are asked for.
pub fn sections(artifact: &TestArtifact, only_doctests: bool) -> (kinds: Vec<ExecutionKind>)
    ensures
        kinds@ == planned_sections(artifact.export_names(), only_doctests),
{
    let found = survey(&artifact.exports);
    let mut kinds: Vec<ExecutionKind> = Vec::new();
    if found.registered && !only_doctests {
        kinds.push(ExecutionKind::Ordinary);
    }
    if found.merged {
        kinds.push(ExecutionKind::MergedDoctest);
    } else if !found.registered && found.plain_main {
        kinds.push(ExecutionKind::SingleDoctest);
    }
    assert(kinds@ =~= planned_sections(artifact.export_names(), only_doctests));
    kinds
}

} // verus!
