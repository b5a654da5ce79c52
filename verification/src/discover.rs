use vstd::prelude::*;

use crate::strings::str_eq;
use crate::strings::str_starts_with;

verus! {

/// One directory as the walker saw it: its entry name, whether it holds a
/// `.git` directory, and its subdirectories in listing order.
#[derive(Debug)]
pub struct DirNode {
    pub name: String,
    pub has_git: bool,
    pub subdirs: Vec<DirNode>,
}

/// Directory names never descended into during discovery.
pub open spec fn spec_discover_skip_names() -> Seq<Seq<char>> {
    seq!["node_modules"@, "target"@, ".git"@, "vendor"@, "dist"@, "build"@, ".next"@]
}

/// A child worth descending into: not on the skip list and not hidden.
pub open spec fn spec_descend_into(name: Seq<char>) -> bool {
    (forall|i: int|
        0 <= i < spec_discover_skip_names().len() ==> #[trigger] spec_discover_skip_names()[i]
            != name) && !(name.len() > 0 && name[0] == '.')
}

/// The repositories found under `node`, whose own path is `path`: the node
/// itself when it holds a `.git` — without descending further — else
/// whatever its eligible children yield, in listing order, down to
/// `max_depth` levels.
pub open spec fn spec_discover(node: DirNode, path: Seq<char>, depth: int, max_depth: int) -> Seq<
    Seq<char>,
>
    decreases max_depth + 1 - depth, 1int + node.subdirs@.len(),
{
    if depth > max_depth {
        Seq::empty()
    } else if node.has_git {
        seq![path]
    } else {
        spec_discover_list(node.subdirs@, path, depth, max_depth)
    }
}

/// The repositories the listed children yield, in order.
pub open spec fn spec_discover_list(
    nodes: Seq<DirNode>,
    path: Seq<char>,
    depth: int,
    max_depth: int,
) -> Seq<Seq<char>>
    decreases max_depth + 1 - depth, nodes.len(),
{
    if depth > max_depth || nodes.len() == 0 {
        Seq::empty()
    } else {
        spec_discover_list(nodes.drop_last(), path, depth, max_depth) + (if spec_descend_into(
            nodes.last().name@,
        ) {
            spec_discover(nodes.last(), path + seq!['/'] + nodes.last().name@, depth + 1, max_depth)
        } else {
            Seq::empty()
        })
    }
}

fn descend_into(name: &str) -> (r: bool)
    ensures
        r == spec_descend_into(name@),
{
    let s0 = str_eq(name, "node_modules");
    let s1 = str_eq(name, "target");
    let s2 = str_eq(name, ".git");
    let s3 = str_eq(name, "vendor");
    let s4 = str_eq(name, "dist");
    let s5 = str_eq(name, "build");
    let s6 = str_eq(name, ".next");
    let skip = s0 || s1 || s2 || s3 || s4 || s5 || s6;
    let hidden = str_starts_with(name, ".");
    proof {
        reveal_strlit(".");
        assert("."@ =~= seq!['.']);
        if hidden {
            assert(name@.subrange(0, "."@.len() as int) == "."@);
            assert(name@.subrange(0, 1) == "."@);
            assert(name@.subrange(0, 1)[0] == name@[0]);
            assert("."@[0] == '.');
            assert(name@[0] == '.');
        }
        if !hidden && name@.len() > 0 && name@[0] == '.' {
            assert(name@.subrange(0, 1) =~= "."@);
            assert(crate::strings::spec_starts_with(name@, "."@));
        }
        assert(hidden == (name@.len() > 0 && name@[0] == '.'));
        if s0 {
            assert(spec_discover_skip_names()[0] == name@);
        }
        if s1 {
            assert(spec_discover_skip_names()[1] == name@);
        }
        if s2 {
            assert(spec_discover_skip_names()[2] == name@);
        }
        if s3 {
            assert(spec_discover_skip_names()[3] == name@);
        }
        if s4 {
            assert(spec_discover_skip_names()[4] == name@);
        }
        if s5 {
            assert(spec_discover_skip_names()[5] == name@);
        }
        if s6 {
            assert(spec_discover_skip_names()[6] == name@);
        }
        if !skip {
            assert forall|i: int|
                0 <= i < spec_discover_skip_names().len() implies #[trigger] spec_discover_skip_names()[i]
                != name@ by {
                assert(spec_discover_skip_names()[0] == "node_modules"@);
                assert(spec_discover_skip_names()[1] == "target"@);
                assert(spec_discover_skip_names()[2] == ".git"@);
                assert(spec_discover_skip_names()[3] == "vendor"@);
                assert(spec_discover_skip_names()[4] == "dist"@);
                assert(spec_discover_skip_names()[5] == "build"@);
                assert(spec_discover_skip_names()[6] == ".next"@);
            }
        }
    }
    !skip && !hidden
}

fn discover_walk(node: &DirNode, path: &str, depth: usize, max_depth: usize) -> (r: Vec<String>)
    ensures
        r.deep_view() == spec_discover(*node, path@, depth as int, max_depth as int),
    decreases max_depth + 1 - depth, 1int + node.subdirs@.len(),
{
    let mut found: Vec<String> = Vec::new();
    if depth > max_depth {
        proof {
            assert(found.deep_view() =~= spec_discover(
                *node,
                path@,
                depth as int,
                max_depth as int,
            ));
        }
        return found;
    }
    if node.has_git {
        found.push(path.to_owned());
        proof {
            assert(found.deep_view() =~= seq![path@]);
        }
        return found;
    }
    let n = node.subdirs.len();
    let mut i: usize = 0;
    proof {
        assert(found.deep_view() =~= spec_discover_list(
            node.subdirs@.take(0),
            path@,
            depth as int,
            max_depth as int,
        ));
    }
    while i < n
        invariant
            n == node.subdirs@.len(),
            i <= n,
            depth <= max_depth,
            !node.has_git,
            found.deep_view() == spec_discover_list(
                node.subdirs@.take(i as int),
                path@,
                depth as int,
                max_depth as int,
            ),
        decreases n - i,
    {
        let child = &node.subdirs[i];
        proof {
            assert(node.subdirs@.take(i + 1).drop_last() =~= node.subdirs@.take(i as int));
            assert(node.subdirs@.take(i + 1).last() == node.subdirs@[i as int]);
        }
        if descend_into(child.name.as_str()) {
            let ghost child_path_view = path@ + seq!['/'] + node.subdirs@[i as int].name@;
            if depth < max_depth {
                let mut child_path = path.to_owned();
                child_path.append("/");
                child_path.append(child.name.as_str());
                proof {
                    reveal_strlit("/");
                    assert(child_path@ =~= child_path_view);
                }
                let mut sub = discover_walk(child, child_path.as_str(), depth + 1, max_depth);
                let ghost pre = found.deep_view();
                let ghost sub_view = sub.deep_view();
                found.append(&mut sub);
                proof {
                    assert(found.deep_view() =~= pre + sub_view);
                }
            } else {
                // One level past the limit yields nothing, so there is no
                // call to make.
                proof {
                    assert(spec_discover(
                        node.subdirs@[i as int],
                        child_path_view,
                        depth + 1,
                        max_depth as int,
                    ) =~= Seq::<Seq<char>>::empty());
                    assert(found.deep_view() + Seq::<Seq<char>>::empty() =~= found.deep_view());
                }
            }
        }
        i = i + 1;
    }
    proof {
        assert(node.subdirs@.take(n as int) =~= node.subdirs@);
    }
    found
}

/// Find every repository under `root` — a directory tree as the filesystem
/// walker reported it — stopping at found repositories, skipping dependency
/// and build directories and hidden ones, and descending at most
/// `max_depth` levels.
pub fn find_git_repos(root: &DirNode, root_path: &str, max_depth: usize) -> (r: Vec<String>)
    ensures
        r.deep_view() == spec_discover(*root, root_path@, 0, max_depth as int),
{
    discover_walk(root, root_path, 0, max_depth)
}

} // verus!
