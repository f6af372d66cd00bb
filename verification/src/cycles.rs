//! What the walk over the imports finds: it reports an error exactly where
//! the imports run in a circle. An error shows a circle in any graph; that
//! every circle is found holds where no two files have the same path.

use vstd::prelude::*;
use crate::imports::{
    circular_from, circular_imports, lemma_source_index, lemma_visit_one, source_index, unvisited,
    visit, visit_imports,
};
use crate::locations::{files_in, graph_located, lemma_circular_files};
use crate::severities::{all_cycles, lemma_circular_imports_marked};
use crate::types::DiagnosticView;

verus! {

/// Whether file `x` imports file `y`.
pub open spec fn edge(files: Seq<(Seq<char>, Seq<Seq<char>>)>, x: int, y: int) -> bool {
    0 <= x < files.len() && 0 <= y < files.len() && files[x].1.contains(files[y].0)
}

/// Whether `p` is a circle of imports: a walk of one step or more from a
/// file back to itself.
pub open spec fn is_cycle(files: Seq<(Seq<char>, Seq<Seq<char>>)>, p: Seq<int>) -> bool {
    &&& p.len() >= 2
    &&& p[0] == p.last()
    &&& forall|t: int| 0 <= t < p.len() - 1 ==> edge(files, #[trigger] p[t], p[t + 1])
}

/// Whether the imports run in a circle somewhere. A file that imports
/// itself is a circle; an import of a file that is not among `files` is
/// part of none.
pub open spec fn has_cycle(files: Seq<(Seq<char>, Seq<Seq<char>>)>) -> bool {
    exists|p: Seq<int>| is_cycle(files, p)
}

/// Whether no two files have the same path.
pub open spec fn distinct_sources(files: Seq<(Seq<char>, Seq<Seq<char>>)>) -> bool {
    forall|i: int, j: int| 0 <= i < j < files.len() ==> files[i].0 != files[j].0
}

/// A path that one of the first `upto` files has is found.
pub proof fn lemma_source_found(
    files: Seq<(Seq<char>, Seq<Seq<char>>)>,
    name: Seq<char>,
    upto: int,
    i: int,
)
    requires
        0 <= i < upto <= files.len(),
        files[i].0 == name,
    ensures
        source_index(files, name, upto) is Some,
    decreases upto,
{
    if files[upto - 1].0 != name {
        lemma_source_found(files, name, upto - 1, i);
    }
}

/// Among files with distinct paths, the path of a file leads to that file.
pub proof fn lemma_own_index(files: Seq<(Seq<char>, Seq<Seq<char>>)>, i: int)
    requires
        distinct_sources(files),
        0 <= i < files.len(),
    ensures
        source_index(files, files[i].0, files.len() as int) == Some(i),
{
    lemma_source_found(files, files[i].0, files.len() as int, i);
    lemma_source_index(files, files[i].0, files.len() as int);
}

/// A walk marks files and adds errors; it takes back neither.
pub proof fn lemma_visit_grows(
    files: Seq<(Seq<char>, Seq<Seq<char>>)>,
    idx: int,
    visited: Seq<bool>,
    stack: Seq<Seq<char>>,
    errors: Seq<DiagnosticView>,
)
    requires
        visited.len() == files.len(),
    ensures
        visit(files, idx, visited, stack, errors).0.len() == visited.len(),
        unvisited(visit(files, idx, visited, stack, errors).0) <= unvisited(visited),
        forall|x: int|
            0 <= x < visited.len() && visited[x] ==> #[trigger] visit(
                files,
                idx,
                visited,
                stack,
                errors,
            ).0[x],
        errors.len() <= visit(files, idx, visited, stack, errors).1.len(),
        0 <= idx < files.len() ==> visit(files, idx, visited, stack, errors).0[idx],
    decreases unvisited(visited), 0nat,
{
    if 0 <= idx < files.len() && !visited[idx] {
        lemma_visit_one(visited, idx);
        lemma_visit_imports_grows(
            files,
            idx,
            0,
            visited.update(idx, true),
            stack.push(files[idx].0),
            errors,
        );
    }
}

/// A walk over the imports of a file marks files and adds errors; it takes
/// back neither.
pub proof fn lemma_visit_imports_grows(
    files: Seq<(Seq<char>, Seq<Seq<char>>)>,
    idx: int,
    k: int,
    visited: Seq<bool>,
    stack: Seq<Seq<char>>,
    errors: Seq<DiagnosticView>,
)
    requires
        visited.len() == files.len(),
    ensures
        visit_imports(files, idx, k, visited, stack, errors).0.len() == visited.len(),
        unvisited(visit_imports(files, idx, k, visited, stack, errors).0) <= unvisited(visited),
        forall|x: int|
            0 <= x < visited.len() && visited[x] ==> #[trigger] visit_imports(
                files,
                idx,
                k,
                visited,
                stack,
                errors,
            ).0[x],
        errors.len() <= visit_imports(files, idx, k, visited, stack, errors).1.len(),
    decreases unvisited(visited), 1 + files[idx].1.len() - k,
{
    if !(idx < 0 || idx >= files.len() || k < 0 || k >= files[idx].1.len()) {
        let name = files[idx].1[k];
        match source_index(files, name, files.len() as int) {
            Some(j) => {
                if 0 <= j < visited.len() && !visited[j] {
                    lemma_visit_grows(files, j, visited, stack, errors);
                    let r = visit(files, j, visited, stack, errors);
                    lemma_visit_imports_grows(files, idx, k + 1, r.0, stack, r.1);
                } else if stack.contains(name) {
                    lemma_visit_imports_grows(
                        files,
                        idx,
                        k + 1,
                        visited,
                        stack,
                        errors.push(crate::imports::cycle_error(files[idx].0, stack, name)),
                    );
                } else {
                    lemma_visit_imports_grows(files, idx, k + 1, visited, stack, errors);
                }
            },
            None => {
                lemma_visit_imports_grows(files, idx, k + 1, visited, stack, errors);
            },
        }
    }
}

/// Whether `nodes` are the files on the path `stack`, each importing the next.
pub open spec fn on_path(
    files: Seq<(Seq<char>, Seq<Seq<char>>)>,
    stack: Seq<Seq<char>>,
    nodes: Seq<int>,
) -> bool {
    &&& nodes.len() == stack.len()
    &&& forall|t: int|
        0 <= t < nodes.len() ==> 0 <= #[trigger] nodes[t] < files.len() && files[nodes[t]].0
            == stack[t]
    &&& forall|t: int| 0 <= t < nodes.len() - 1 ==> edge(files, #[trigger] nodes[t], nodes[t + 1])
}

/// An import of a file on the path closes a circle.
pub proof fn lemma_closes_cycle(
    files: Seq<(Seq<char>, Seq<Seq<char>>)>,
    stack: Seq<Seq<char>>,
    nodes: Seq<int>,
    name: Seq<char>,
)
    requires
        on_path(files, stack, nodes),
        nodes.len() > 0,
        stack.contains(name),
        files[nodes.last()].1.contains(name),
    ensures
        has_cycle(files),
{
    let t = choose|t: int| 0 <= t < stack.len() && stack[t] == name;
    let n = nodes.len() as int;
    let p = nodes.subrange(t, n).push(nodes[t]);
    assert(p[0] == nodes[t]);
    assert(p.last() == nodes[t]);
    assert forall|s: int| 0 <= s < p.len() - 1 implies edge(files, #[trigger] p[s], p[s + 1]) by {
        assert(p[s] == nodes[t + s]);
        if s < p.len() - 2 {
            assert(p[s + 1] == nodes[t + s + 1]);
        } else {
            assert(p[s] == nodes.last());
            assert(p[s + 1] == nodes[t]);
            assert(files[nodes[t]].0 == name);
        }
    }
    assert(is_cycle(files, p));
}

/// Where a walk adds an error, the imports run in a circle.
pub proof fn lemma_visit_sound(
    files: Seq<(Seq<char>, Seq<Seq<char>>)>,
    idx: int,
    visited: Seq<bool>,
    stack: Seq<Seq<char>>,
    errors: Seq<DiagnosticView>,
    nodes: Seq<int>,
)
    requires
        visited.len() == files.len(),
        on_path(files, stack, nodes),
        nodes.len() > 0 ==> edge(files, nodes.last(), idx),
    ensures
        visit(files, idx, visited, stack, errors).1.len() > errors.len() ==> has_cycle(files),
    decreases unvisited(visited), 0nat,
{
    if 0 <= idx < files.len() && !visited[idx] {
        lemma_visit_one(visited, idx);
        let next = nodes.push(idx);
        let path = stack.push(files[idx].0);
        assert(on_path(files, path, next)) by {
            assert forall|t: int| 0 <= t < next.len() - 1 implies edge(
                files,
                #[trigger] next[t],
                next[t + 1],
            ) by {
                if t < nodes.len() - 1 {
                    assert(next[t] == nodes[t] && next[t + 1] == nodes[t + 1]);
                }
            }
        }
        lemma_visit_imports_sound(files, idx, 0, visited.update(idx, true), path, errors, next);
    }
}

/// Where a walk over the imports of a file adds an error, the imports run
/// in a circle.
pub proof fn lemma_visit_imports_sound(
    files: Seq<(Seq<char>, Seq<Seq<char>>)>,
    idx: int,
    k: int,
    visited: Seq<bool>,
    stack: Seq<Seq<char>>,
    errors: Seq<DiagnosticView>,
    nodes: Seq<int>,
)
    requires
        visited.len() == files.len(),
        on_path(files, stack, nodes),
        nodes.len() > 0,
        nodes.last() == idx,
    ensures
        visit_imports(files, idx, k, visited, stack, errors).1.len() > errors.len() ==> has_cycle(
            files,
        ),
    decreases unvisited(visited), 1 + files[idx].1.len() - k,
{
    if !(idx < 0 || idx >= files.len() || k < 0 || k >= files[idx].1.len()) {
        let name = files[idx].1[k];
        assert(files[idx].1.contains(name));
        match source_index(files, name, files.len() as int) {
            Some(j) => {
                lemma_source_index(files, name, files.len() as int);
                if 0 <= j < visited.len() && !visited[j] {
                    lemma_visit_grows(files, j, visited, stack, errors);
                    lemma_visit_sound(files, j, visited, stack, errors, nodes);
                    let r = visit(files, j, visited, stack, errors);
                    lemma_visit_imports_sound(files, idx, k + 1, r.0, stack, r.1, nodes);
                } else if stack.contains(name) {
                    lemma_closes_cycle(files, stack, nodes, name);
                } else {
                    lemma_visit_imports_sound(files, idx, k + 1, visited, stack, errors, nodes);
                }
            },
            None => {
                lemma_visit_imports_sound(files, idx, k + 1, visited, stack, errors, nodes);
            },
        }
    }
}

proof fn lemma_circular_sound(
    files: Seq<(Seq<char>, Seq<Seq<char>>)>,
    i: int,
    visited: Seq<bool>,
    errors: Seq<DiagnosticView>,
)
    requires
        visited.len() == files.len(),
    ensures
        circular_from(files, i, visited, errors).len() > errors.len() ==> has_cycle(files),
    decreases files.len() - i,
{
    if 0 <= i < files.len() {
        match source_index(files, files[i].0, files.len() as int) {
            Some(j) => {
                if 0 <= j < visited.len() && !visited[j] {
                    lemma_visit_grows(files, j, visited, Seq::empty(), errors);
                    lemma_visit_sound(files, j, visited, Seq::empty(), errors, Seq::empty());
                    let r = visit(files, j, visited, Seq::empty(), errors);
                    lemma_circular_sound(files, i + 1, r.0, r.1);
                } else {
                    lemma_circular_sound(files, i + 1, visited, errors);
                }
            },
            None => {
                lemma_circular_sound(files, i + 1, visited, errors);
            },
        }
    }
}

/// Where the import check reports an error, the imports run in a circle.
pub proof fn lemma_error_shows_cycle(files: Seq<(Seq<char>, Seq<Seq<char>>)>)
    ensures
        circular_imports(files).len() > 0 ==> has_cycle(files),
{
    lemma_circular_sound(files, 0, Seq::new(files.len(), |i: int| false), Seq::empty());
}

/// Whether the walk stands well with the ranks `rank`, all below `c`: a
/// file has a rank from the moment on at which the walk is through with
/// it, and -1 before. Every visited file has a rank or lies on the path,
/// never both, and a file with a rank imports only files of lower rank.
pub open spec fn ranked(
    files: Seq<(Seq<char>, Seq<Seq<char>>)>,
    visited: Seq<bool>,
    stack: Seq<Seq<char>>,
    rank: Seq<int>,
    c: int,
) -> bool {
    &&& visited.len() == files.len()
    &&& rank.len() == files.len()
    &&& forall|x: int| 0 <= x < files.len() ==> -1 <= #[trigger] rank[x] < c
    &&& forall|x: int|
        0 <= x < files.len() ==> (#[trigger] visited[x] <==> (rank[x] >= 0 || stack.contains(
            files[x].0,
        )))
    &&& forall|x: int|
        0 <= x < files.len() ==> !(#[trigger] rank[x] >= 0 && stack.contains(files[x].0))
    &&& forall|x: int, y: int|
        0 <= x < files.len() && 0 <= y < files.len() && rank[x] >= 0
            && #[trigger] files[x].1.contains(files[y].0) ==> 0 <= rank[y] < rank[x]
}

/// Whether the ranks that `before` gives are kept in `after`.
pub open spec fn ranks_kept(before: Seq<int>, after: Seq<int>) -> bool {
    before.len() == after.len() && forall|x: int|
        0 <= x < before.len() && before[x] >= 0 ==> #[trigger] after[x] == before[x]
}

/// Whether the walk is through with each of the first `k` imports of file
/// `idx` that names a file.
pub open spec fn imports_done(
    files: Seq<(Seq<char>, Seq<Seq<char>>)>,
    idx: int,
    k: int,
    rank: Seq<int>,
) -> bool {
    forall|i: int|
        0 <= i < k && i < files[idx].1.len() ==> (#[trigger] source_index(
            files,
            files[idx].1[i],
            files.len() as int,
        ) matches Some(j) ==> 0 <= j < rank.len() && rank[j] >= 0)
}

/// What lies on a path with one more file: what lay on it, and that file.
pub proof fn lemma_path_push(stack: Seq<Seq<char>>, name: Seq<char>)
    ensures
        forall|other: Seq<char>| #[trigger]
            stack.push(name).contains(other) <==> (stack.contains(other) || other == name),
{
    assert forall|other: Seq<char>| #[trigger]
        stack.push(name).contains(other) <==> (stack.contains(other) || other == name) by {
        if stack.push(name).contains(other) {
            let t = choose|t: int| 0 <= t < stack.push(name).len() && stack.push(name)[t] == other;
            if t < stack.len() {
                assert(stack[t] == other);
            }
        }
        if stack.contains(other) {
            let t = choose|t: int| 0 <= t < stack.len() && stack[t] == other;
            assert(stack.push(name)[t] == other);
        }
        if other == name {
            assert(stack.push(name)[stack.len() as int] == other);
        }
    }
}

/// A walk from a file that adds no error leaves the walk well ranked, with
/// a rank for that file. The ranks after the walk are returned.
pub proof fn lemma_visit_ranked(
    files: Seq<(Seq<char>, Seq<Seq<char>>)>,
    idx: int,
    visited: Seq<bool>,
    stack: Seq<Seq<char>>,
    errors: Seq<DiagnosticView>,
    rank: Seq<int>,
    c: int,
) -> (r: (Seq<int>, int))
    requires
        distinct_sources(files),
        ranked(files, visited, stack, rank, c),
        0 <= idx < files.len(),
        !visited[idx],
    ensures
        visit(files, idx, visited, stack, errors).1.len() == errors.len() ==> ranked(
            files,
            visit(files, idx, visited, stack, errors).0,
            stack,
            r.0,
            r.1,
        ) && ranks_kept(rank, r.0) && r.0[idx] >= 0 && c <= r.1,
    decreases unvisited(visited), 0nat,
{
    lemma_visit_one(visited, idx);
    let name = files[idx].0;
    let marked = visited.update(idx, true);
    let path = stack.push(name);
    lemma_path_push(stack, name);
    assert(ranked(files, marked, path, rank, c)) by {
        assert forall|x: int| 0 <= x < files.len() implies (#[trigger] marked[x] <==> (rank[x] >= 0
            || path.contains(files[x].0))) by {
            assert(visited[x] <==> (rank[x] >= 0 || stack.contains(files[x].0)));
        }
        assert forall|x: int| 0 <= x < files.len() implies !(#[trigger] rank[x] >= 0
            && path.contains(files[x].0)) by {
            assert(visited[x] <==> (rank[x] >= 0 || stack.contains(files[x].0)));
            if files[x].0 == name && x != idx {
                if x < idx {
                    assert(files[x].0 != files[idx].0);
                } else {
                    assert(files[idx].0 != files[x].0);
                }
            }
        }
    }
    let after = lemma_visit_imports_ranked(files, idx, 0, marked, path, errors, rank, c);
    let r = visit_imports(files, idx, 0, marked, path, errors);
    if r.1.len() == errors.len() {
        let rank2 = after.0;
        let c2 = after.1;
        let last = rank2.update(idx, c2);
        assert(rank2[idx] < 0) by {
            assert(path.contains(files[idx].0));
        }
        assert(ranked(files, r.0, stack, last, c2 + 1)) by {
            assert forall|x: int| 0 <= x < files.len() implies (#[trigger] r.0[x] <==> (last[x] >= 0
                || stack.contains(files[x].0))) by {
                assert(r.0[x] <==> (rank2[x] >= 0 || path.contains(files[x].0)));
                if x != idx && files[x].0 == name {
                    if x < idx {
                        assert(files[x].0 != files[idx].0);
                    } else {
                        assert(files[idx].0 != files[x].0);
                    }
                }
            }
            assert forall|x: int| 0 <= x < files.len() implies !(#[trigger] last[x] >= 0
                && stack.contains(files[x].0)) by {
                assert(!(rank2[x] >= 0 && path.contains(files[x].0)));
                if x == idx {
                    assert(visited[idx] <==> (rank[idx] >= 0 || stack.contains(files[idx].0)));
                }
            }
            assert forall|x: int, y: int|
                0 <= x < files.len() && 0 <= y < files.len() && last[x] >= 0
                    && #[trigger] files[x].1.contains(files[y].0) implies 0 <= last[y] < last[x] by {
                if x == idx {
                    let i = choose|i: int|
                        0 <= i < files[idx].1.len() && files[idx].1[i] == files[y].0;
                    lemma_own_index(files, y);
                    assert(source_index(files, files[idx].1[i], files.len() as int) == Some(y));
                    assert(rank2[y] >= 0);
                } else {
                    assert(rank2[x] >= 0);
                    assert(0 <= rank2[y] < rank2[x]);
                }
            }
        }
        assert(ranks_kept(rank, last)) by {
            assert forall|x: int| 0 <= x < rank.len() && rank[x] >= 0 implies #[trigger] last[x]
                == rank[x] by {
                assert(rank2[x] == rank[x]);
                assert(visited[x] <==> (rank[x] >= 0 || stack.contains(files[x].0)));
            }
        }
        (last, c2 + 1)
    } else {
        lemma_visit_imports_grows(files, idx, 0, marked, path, errors);
        (rank, c)
    }
}

/// A walk over the imports of a file on the path that adds no error leaves
/// the walk well ranked and is through with every import of the file.
pub proof fn lemma_visit_imports_ranked(
    files: Seq<(Seq<char>, Seq<Seq<char>>)>,
    idx: int,
    k: int,
    visited: Seq<bool>,
    stack: Seq<Seq<char>>,
    errors: Seq<DiagnosticView>,
    rank: Seq<int>,
    c: int,
) -> (r: (Seq<int>, int))
    requires
        distinct_sources(files),
        ranked(files, visited, stack, rank, c),
        0 <= idx < files.len(),
        0 <= k,
        imports_done(files, idx, k, rank),
    ensures
        visit_imports(files, idx, k, visited, stack, errors).1.len() == errors.len() ==> ranked(
            files,
            visit_imports(files, idx, k, visited, stack, errors).0,
            stack,
            r.0,
            r.1,
        ) && ranks_kept(rank, r.0) && c <= r.1 && imports_done(
            files,
            idx,
            files[idx].1.len() as int,
            r.0,
        ),
    decreases unvisited(visited), 1 + files[idx].1.len() - k,
{
    if k >= files[idx].1.len() {
        (rank, c)
    } else {
        let name = files[idx].1[k];
        match source_index(files, name, files.len() as int) {
            Some(j) => {
                lemma_source_index(files, name, files.len() as int);
                if !visited[j] {
                    lemma_visit_grows(files, j, visited, stack, errors);
                    let mid = lemma_visit_ranked(files, j, visited, stack, errors, rank, c);
                    let r = visit(files, j, visited, stack, errors);
                    lemma_visit_imports_grows(files, idx, k + 1, r.0, stack, r.1);
                    if r.1.len() == errors.len() {
                        assert(imports_done(files, idx, k + 1, mid.0));
                        let end = lemma_visit_imports_ranked(
                            files,
                            idx,
                            k + 1,
                            r.0,
                            stack,
                            r.1,
                            mid.0,
                            mid.1,
                        );
                        if visit_imports(files, idx, k + 1, r.0, stack, r.1).1.len()
                            == errors.len() {
                            assert(ranks_kept(rank, end.0));
                        }
                        end
                    } else {
                        (rank, c)
                    }
                } else if stack.contains(name) {
                    lemma_visit_imports_grows(
                        files,
                        idx,
                        k + 1,
                        visited,
                        stack,
                        errors.push(crate::imports::cycle_error(files[idx].0, stack, name)),
                    );
                    (rank, c)
                } else {
                    assert(visited[j] <==> (rank[j] >= 0 || stack.contains(files[j].0)));
                    assert(imports_done(files, idx, k + 1, rank));
                    lemma_visit_imports_ranked(files, idx, k + 1, visited, stack, errors, rank, c)
                }
            },
            None => {
                assert(imports_done(files, idx, k + 1, rank));
                lemma_visit_imports_ranked(files, idx, k + 1, visited, stack, errors, rank, c)
            },
        }
    }
}

/// Along a walk over ranked files the rank falls.
proof fn lemma_walk_falls(
    files: Seq<(Seq<char>, Seq<Seq<char>>)>,
    rank: Seq<int>,
    p: Seq<int>,
    t: int,
)
    requires
        rank.len() == files.len(),
        forall|x: int| 0 <= x < files.len() ==> #[trigger] rank[x] >= 0,
        forall|x: int, y: int|
            0 <= x < files.len() && 0 <= y < files.len() && #[trigger] files[x].1.contains(
                files[y].0,
            ) ==> rank[y] < rank[x],
        forall|s: int| 0 <= s < p.len() - 1 ==> edge(files, #[trigger] p[s], p[s + 1]),
        1 <= t < p.len(),
    ensures
        rank[p[t]] < rank[p[0]],
    decreases t,
{
    assert(edge(files, p[t - 1], p[t]));
    if t > 1 {
        lemma_walk_falls(files, rank, p, t - 1);
    }
}

proof fn lemma_circular_ranked(
    files: Seq<(Seq<char>, Seq<Seq<char>>)>,
    i: int,
    visited: Seq<bool>,
    errors: Seq<DiagnosticView>,
    rank: Seq<int>,
    c: int,
)
    requires
        distinct_sources(files),
        ranked(files, visited, Seq::empty(), rank, c),
        0 <= i,
        forall|x: int| 0 <= x < i && x < files.len() ==> #[trigger] visited[x],
    ensures
        circular_from(files, i, visited, errors).len() == errors.len() ==> !has_cycle(files),
    decreases files.len() - i,
{
    if i < files.len() {
        lemma_own_index(files, i);
        if !visited[i] {
            lemma_visit_grows(files, i, visited, Seq::empty(), errors);
            let mid = lemma_visit_ranked(files, i, visited, Seq::empty(), errors, rank, c);
            let r = visit(files, i, visited, Seq::empty(), errors);
            lemma_circular_stays(files, i + 1, r.0, r.1);
            if r.1.len() == errors.len() {
                lemma_circular_ranked(files, i + 1, r.0, r.1, mid.0, mid.1);
            }
        } else {
            lemma_circular_ranked(files, i + 1, visited, errors, rank, c);
        }
    } else if has_cycle(files) {
        let p = choose|p: Seq<int>| is_cycle(files, p);
        assert forall|x: int| 0 <= x < files.len() implies #[trigger] rank[x] >= 0 by {
            assert(visited[x]);
            assert(!Seq::<Seq<char>>::empty().contains(files[x].0));
        }
        lemma_walk_falls(files, rank, p, p.len() - 1);
    }
}

proof fn lemma_circular_stays(
    files: Seq<(Seq<char>, Seq<Seq<char>>)>,
    i: int,
    visited: Seq<bool>,
    errors: Seq<DiagnosticView>,
)
    requires
        visited.len() == files.len(),
    ensures
        errors.len() <= circular_from(files, i, visited, errors).len(),
    decreases files.len() - i,
{
    if 0 <= i < files.len() {
        match source_index(files, files[i].0, files.len() as int) {
            Some(j) => {
                if 0 <= j < visited.len() && !visited[j] {
                    lemma_visit_grows(files, j, visited, Seq::empty(), errors);
                    let r = visit(files, j, visited, Seq::empty(), errors);
                    lemma_circular_stays(files, i + 1, r.0, r.1);
                } else {
                    lemma_circular_stays(files, i + 1, visited, errors);
                }
            },
            None => {
                lemma_circular_stays(files, i + 1, visited, errors);
            },
        }
    }
}

/// Among files with distinct paths, every circle of imports is reported:
/// where the import check finds nothing, the imports run in no circle.
pub proof fn lemma_cycle_is_reported(files: Seq<(Seq<char>, Seq<Seq<char>>)>)
    requires
        distinct_sources(files),
    ensures
        has_cycle(files) ==> circular_imports(files).len() > 0,
{
    let none = Seq::new(files.len(), |i: int| false);
    let rank = Seq::new(files.len(), |i: int| -1int);
    assert(ranked(files, none, Seq::empty(), rank, 0)) by {
        assert forall|x: int| 0 <= x < files.len() implies !Seq::<Seq<char>>::empty().contains(
            #[trigger] files[x].0,
        ) by {}
    }
    lemma_circular_ranked(files, 0, none, Seq::empty(), rank, 0);
}

/// Among files with distinct paths, the import check reports an error
/// exactly where the imports run in a circle.
pub proof fn lemma_errors_iff_cycle(files: Seq<(Seq<char>, Seq<Seq<char>>)>)
    requires
        distinct_sources(files),
    ensures
        circular_imports(files).len() == 0 <==> !has_cycle(files),
{
    lemma_error_shows_cycle(files);
    lemma_cycle_is_reported(files);
}

/// The paths of the files.
pub open spec fn sources(files: Seq<(Seq<char>, Seq<Seq<char>>)>) -> Seq<Seq<char>> {
    Seq::new(files.len(), |i: int| files[i].0)
}

/// Every diagnostic of the import check is an error with the code
/// `M3L-E003`, at line 1 and column 1 of one of the files.
pub proof fn lemma_import_errors(files: Seq<(Seq<char>, Seq<Seq<char>>)>)
    ensures
        all_cycles(circular_imports(files)),
        files_in(circular_imports(files), sources(files)),
{
    lemma_circular_imports_marked(files);
    let known = sources(files);
    assert(graph_located(files, known)) by {
        assert forall|i: int| 0 <= i < files.len() implies known.contains(
            (#[trigger] files[i]).0,
        ) by {
            assert(known[i] == files[i].0);
        }
    }
    lemma_circular_files(files, 0, Seq::new(files.len(), |i: int| false), Seq::empty(), known);
}

} // verus!
