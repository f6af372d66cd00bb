//! Circular imports: a walk over the graph of files and their imports that
//! reports each import that leads back to a file on the path to it.

use vstd::prelude::*;
use crate::report::{error_at, error_view, report, say};
use crate::text::{join, push_all, str_eq};
use crate::types::{Diagnostic, DiagnosticView};

verus! {

/// The last of the first `upto` files whose path is `name`.
pub open spec fn source_index(
    files: Seq<(Seq<char>, Seq<Seq<char>>)>,
    name: Seq<char>,
    upto: int,
) -> Option<int>
    decreases upto,
{
    if upto <= 0 || upto > files.len() {
        None
    } else if files[upto - 1].0 == name {
        Some(upto - 1)
    } else {
        source_index(files, name, upto - 1)
    }
}

pub proof fn lemma_source_index(files: Seq<(Seq<char>, Seq<Seq<char>>)>, name: Seq<char>, upto: int)
    requires
        0 <= upto <= files.len(),
    ensures
        source_index(files, name, upto) matches Some(i) ==> 0 <= i < upto && files[i].0 == name,
    decreases upto,
{
    if upto > 0 && files[upto - 1].0 != name {
        lemma_source_index(files, name, upto - 1);
    }
}

fn find_source(files: &[(String, Vec<String>)], name: &str) -> (r: Option<usize>)
    ensures
        crate::scan::position(r) == source_index(
            files.deep_view(),
            name@,
            files@.len() as int,
        ),
        r matches Some(i) ==> i < files@.len(),
{
    let mut i: usize = files.len();
    while i > 0
        invariant
            i <= files@.len(),
            source_index(files.deep_view(), name@, i as int) == source_index(
                files.deep_view(),
                name@,
                files@.len() as int,
            ),
        decreases i,
    {
        proof {
            assert(files.deep_view()[i - 1].0 == files@[i - 1].0@);
        }
        if str_eq(files[i - 1].0.as_str(), name) {
            return Some(i - 1);
        }
        i -= 1;
    }
    None
}

/// How many of the flags are not set.
pub open spec fn unvisited(flags: Seq<bool>) -> nat
    decreases flags.len(),
{
    if flags.len() == 0 {
        0
    } else {
        unvisited(flags.drop_last()) + if flags.last() {
            0nat
        } else {
            1nat
        }
    }
}

/// Setting a flag that was not set leaves one flag less unset.
pub proof fn lemma_visit_one(flags: Seq<bool>, i: int)
    requires
        0 <= i < flags.len(),
        !flags[i],
    ensures
        unvisited(flags.update(i, true)) + 1 == unvisited(flags),
    decreases flags.len(),
{
    let after = flags.update(i, true);
    if i == flags.len() - 1 {
        assert(after.drop_last() =~= flags.drop_last());
    } else {
        assert(after.drop_last() =~= flags.drop_last().update(i, true));
        lemma_visit_one(flags.drop_last(), i);
    }
}

/// The position of the first `name` on the path, or the length of the path.
pub open spec fn path_index(stack: Seq<Seq<char>>, name: Seq<char>, from: int) -> int
    decreases stack.len() - from,
{
    if from < 0 || from >= stack.len() {
        stack.len() as int
    } else if stack[from] == name {
        from
    } else {
        path_index(stack, name, from + 1)
    }
}

/// The arrow between the files of a chain.
pub open spec fn arrow() -> Seq<char> {
    " \u{2192} "@
}

/// The error for an import of `name` from the file `node` that closes a
/// cycle: the chain runs from the first `name` on the path to `node`, and
/// back to `name`.
pub open spec fn cycle_error(node: Seq<char>, stack: Seq<Seq<char>>, name: Seq<char>) -> DiagnosticView {
    let start = path_index(stack, name, 0);
    error_view(
        "M3L-E003"@,
        node,
        1,
        "Circular import detected: "@ + join(
            stack.subrange(start, stack.len() as int).push(name),
            arrow(),
        ),
    )
}

/// The walk from file `idx`, which is not visited yet: the file is marked
/// and put on the path, and its imports are followed in order.
pub open spec fn visit(
    files: Seq<(Seq<char>, Seq<Seq<char>>)>,
    idx: int,
    visited: Seq<bool>,
    stack: Seq<Seq<char>>,
    errors: Seq<DiagnosticView>,
) -> (Seq<bool>, Seq<DiagnosticView>)
    decreases unvisited(visited), 0nat,
{
    if 0 <= idx < files.len() && visited.len() == files.len() && !visited[idx] && unvisited(
        visited.update(idx, true),
    ) < unvisited(visited) {
        visit_imports(files, idx, 0, visited.update(idx, true), stack.push(files[idx].0), errors)
    } else {
        (visited, errors)
    }
}

/// The walk over the imports of file `idx` from the `k`-th on. An import of
/// a file that is not visited yet is followed; one of a visited file that
/// lies on the path is reported; an import that names no file is passed over.
pub open spec fn visit_imports(
    files: Seq<(Seq<char>, Seq<Seq<char>>)>,
    idx: int,
    k: int,
    visited: Seq<bool>,
    stack: Seq<Seq<char>>,
    errors: Seq<DiagnosticView>,
) -> (Seq<bool>, Seq<DiagnosticView>)
    decreases unvisited(visited), 1 + files[idx].1.len() - k,
{
    if idx < 0 || idx >= files.len() || k < 0 || k >= files[idx].1.len() {
        (visited, errors)
    } else {
        let name = files[idx].1[k];
        match source_index(files, name, files.len() as int) {
            Some(j) => if 0 <= j < visited.len() && !visited[j] {
                let r = visit(files, j, visited, stack, errors);
                if unvisited(r.0) <= unvisited(visited) {
                    visit_imports(files, idx, k + 1, r.0, stack, r.1)
                } else {
                    r
                }
            } else if stack.contains(name) {
                visit_imports(
                    files,
                    idx,
                    k + 1,
                    visited,
                    stack,
                    errors.push(cycle_error(files[idx].0, stack, name)),
                )
            } else {
                visit_imports(files, idx, k + 1, visited, stack, errors)
            },
            None => visit_imports(files, idx, k + 1, visited, stack, errors),
        }
    }
}

/// The errors of the walks that start at the files from `i` on, each at a
/// file that is not visited yet.
pub open spec fn circular_from(
    files: Seq<(Seq<char>, Seq<Seq<char>>)>,
    i: int,
    visited: Seq<bool>,
    errors: Seq<DiagnosticView>,
) -> Seq<DiagnosticView>
    decreases files.len() - i,
{
    if i < 0 || i >= files.len() {
        errors
    } else {
        match source_index(files, files[i].0, files.len() as int) {
            Some(j) => if 0 <= j < visited.len() && !visited[j] {
                let r = visit(files, j, visited, Seq::empty(), errors);
                circular_from(files, i + 1, r.0, r.1)
            } else {
                circular_from(files, i + 1, visited, errors)
            },
            None => circular_from(files, i + 1, visited, errors),
        }
    }
}

/// The circular imports among `files`, each a path with the paths it
/// imports: one error for each import that leads back to a file on the way
/// to it, in the order in which a depth-first walk finds them.
pub open spec fn circular_imports(files: Seq<(Seq<char>, Seq<Seq<char>>)>) -> Seq<DiagnosticView> {
    circular_from(files, 0, Seq::new(files.len(), |i: int| false), Seq::empty())
}

fn on_path(stack: &Vec<String>, name: &str) -> (r: usize)
    ensures
        r == path_index(stack.deep_view(), name@, 0),
        r <= stack@.len(),
        (r < stack@.len()) == stack.deep_view().contains(name@),
{
    let mut i: usize = 0;
    while i < stack.len()
        invariant
            i <= stack@.len(),
            path_index(stack.deep_view(), name@, i as int) == path_index(
                stack.deep_view(),
                name@,
                0,
            ),
            forall|j: int| 0 <= j < i ==> stack.deep_view()[j] != name@,
        decreases stack.len() - i,
    {
        proof {
            assert(stack.deep_view()[i as int] == stack@[i as int]@);
        }
        if str_eq(stack[i].as_str(), name) {
            return i;
        }
        i += 1;
    }
    i
}

fn chain_text(stack: &Vec<String>, start: usize, name: &str) -> (r: Vec<char>)
    requires
        start <= stack@.len(),
    ensures
        r@ == join(
            stack.deep_view().subrange(start as int, stack@.len() as int).push(name@),
            arrow(),
        ),
{
    let mut out: Vec<char> = Vec::new();
    let n = stack.len();
    let ghost all = stack.deep_view().subrange(start as int, n as int).push(name@);
    let mut k: usize = start;
    proof {
        assert(all.take(0) =~= Seq::empty());
    }
    while k < n
        invariant
            start <= k <= n == stack@.len(),
            all == stack.deep_view().subrange(start as int, n as int).push(name@),
            out@ == join(all.take(k - start), arrow()),
        decreases n - k,
    {
        let ghost before = all.take(k - start);
        let ghost after = all.take(k - start + 1);
        proof {
            assert(after.drop_last() =~= before);
            assert(after.last() == stack@[k as int]@);
        }
        if k > start {
            say(&mut out, " \u{2192} ");
        }
        say(&mut out, stack[k].as_str());
        proof {
            if k > start {
                assert(out@ =~= join(before, arrow()) + arrow() + stack@[k as int]@);
            } else {
                assert(out@ =~= stack@[k as int]@);
            }
        }
        k += 1;
    }
    let ghost before = all.take(n - start);
    proof {
        assert(all.drop_last() =~= before);
        assert(all.last() == name@);
    }
    if n > start {
        say(&mut out, " \u{2192} ");
        say(&mut out, name);
        proof {
            assert(out@ =~= join(before, arrow()) + arrow() + name@);
        }
    } else {
        say(&mut out, name);
        proof {
            assert(out@ =~= name@);
            assert(all.len() == 1);
        }
    }
    out
}

fn make_cycle_error(node: &str, stack: &Vec<String>, name: &str) -> (r: Diagnostic)
    ensures
        r.deep_view() == cycle_error(node@, stack.deep_view(), name@),
{
    let start = on_path(stack, name);
    let chain = chain_text(stack, start, name);
    let mut message: Vec<char> = Vec::new();
    say(&mut message, "Circular import detected: ");
    push_all(&mut message, &chain);
    proof {
        assert(message@ =~= "Circular import detected: "@ + chain@);
    }
    error_at("M3L-E003", node, 1, &message)
}

fn dfs_detect_cycle(
    files: &[(String, Vec<String>)],
    idx: usize,
    visited: &mut Vec<bool>,
    rec_stack: &mut Vec<String>,
    errors: &mut Vec<Diagnostic>,
)
    requires
        idx < files@.len(),
        old(visited)@.len() == files@.len(),
        !old(visited)@[idx as int],
    ensures
        (final(visited)@, final(errors).deep_view()) == visit(
            files.deep_view(),
            idx as int,
            old(visited)@,
            old(rec_stack).deep_view(),
            old(errors).deep_view(),
        ),
        final(rec_stack).deep_view() == old(rec_stack).deep_view(),
        final(visited)@.len() == files@.len(),
        unvisited(final(visited)@) < unvisited(old(visited)@),
    decreases unvisited(old(visited)@),
{
    let ghost all = files.deep_view();
    let ghost stack0 = rec_stack.deep_view();
    proof {
        lemma_visit_one(visited@, idx as int);
        assert(all[idx as int].0 == files@[idx as int].0@);
    }
    visited.set(idx, true);
    rec_stack.push(files[idx].0.clone());
    let ghost path = rec_stack.deep_view();
    proof {
        assert(path =~= stack0.push(all[idx as int].0));
    }
    let imports = &files[idx].1;
    proof {
        assert(all[idx as int].1 == imports.deep_view());
    }
    let mut k: usize = 0;
    while k < imports.len()
        invariant
            k <= imports@.len(),
            idx < files@.len(),
            all == files.deep_view(),
            all[idx as int].1 == imports.deep_view(),
            all[idx as int].0 == files@[idx as int].0@,
            visited@.len() == files@.len(),
            rec_stack.deep_view() == path,
            unvisited(visited@) < unvisited(old(visited)@),
            visit_imports(all, idx as int, k as int, visited@, path, errors.deep_view())
                == visit(all, idx as int, old(visited)@, stack0, old(errors).deep_view()),
        decreases imports.len() - k,
    {
        let name = imports[k].as_str();
        proof {
            assert(imports.deep_view()[k as int] == imports@[k as int]@);
        }
        match find_source(files, name) {
            Some(j) => {
                if !visited[j] {
                    dfs_detect_cycle(files, j, visited, rec_stack, errors);
                } else if on_path(rec_stack, name) < rec_stack.len() {
                    report(errors, make_cycle_error(files[idx].0.as_str(), rec_stack, name));
                }
            },
            None => {},
        }
        k += 1;
    }
    let ghost full = rec_stack@;
    rec_stack.pop();
    proof {
        assert(rec_stack@ =~= full.drop_last());
        assert forall|j: int| 0 <= j < rec_stack@.len() implies rec_stack.deep_view()[j]
            == stack0[j] by {
            assert(path[j] == full[j]@);
        }
        assert(rec_stack.deep_view() =~= stack0);
    }
}

/// Finds the circular imports among files, each given as its path and the
/// paths it imports.
pub fn detect_circular_imports(file_imports: &[(String, Vec<String>)]) -> (r: Vec<Diagnostic>)
    ensures
        r.deep_view() == circular_imports(file_imports.deep_view()),
{
    let n = file_imports.len();
    let mut errors: Vec<Diagnostic> = Vec::new();
    let mut visited: Vec<bool> = Vec::new();
    let mut k: usize = 0;
    while k < n
        invariant
            k <= n,
            visited@.len() == k,
            forall|j: int| 0 <= j < k ==> !visited@[j],
        decreases n - k,
    {
        visited.push(false);
        k += 1;
    }
    let mut rec_stack: Vec<String> = Vec::new();
    let ghost all = file_imports.deep_view();
    proof {
        assert(visited@ =~= Seq::new(all.len(), |i: int| false));
        assert(errors.deep_view() =~= Seq::empty());
        assert(rec_stack.deep_view() =~= Seq::empty());
    }
    let mut i: usize = 0;
    while i < n
        invariant
            i <= n == file_imports@.len(),
            all == file_imports.deep_view(),
            visited@.len() == n,
            rec_stack.deep_view() == Seq::<Seq<char>>::empty(),
            circular_from(all, i as int, visited@, errors.deep_view()) == circular_imports(all),
        decreases n - i,
    {
        proof {
            assert(all[i as int].0 == file_imports@[i as int].0@);
        }
        match find_source(file_imports, file_imports[i].0.as_str()) {
            Some(j) => {
                if !visited[j] {
                    dfs_detect_cycle(file_imports, j, &mut visited, &mut rec_stack, &mut errors);
                }
            },
            None => {},
        }
        i += 1;
    }
    errors
}

} // verus!
