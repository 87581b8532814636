//! The directory snapshot a device shares with its group: a rooted tree of
//! named nodes, replaced wholesale, never patched.

use vstd::prelude::*;

use crate::text::str_eq;

verus! {

/// One node of a shared directory tree; a node without children is a file.
#[derive(Debug)]
pub struct FileNode {
    pub file_name: String,
    pub children: Vec<FileNode>,
}

/// Relies on std::path::Path::exists: whether the path points at an existing
/// entity on this machine's disk. The answer depends on the disk, so nothing
/// more is promised of it.
#[verifier::external_body]
fn is_exist(path_str: &str) -> bool {
    let _path = std::path::Path::new(path_str);
    _path.exists()
}

impl FileNode {
    /// Builds a leaf node once the root existence check has been made;
    /// `present` reports that check's answer.
    pub fn new_if_present(file_name: &str, present: bool, is_root: bool) -> (r: Option<FileNode>)
        ensures
            r is Some <==> (!is_root || present),
            r is Some ==> r->Some_0.file_name@ == file_name@ && r->Some_0.children@.len() == 0,
    {
        if is_root && !present {
            None
        } else {
            Some(FileNode { file_name: file_name.to_owned(), children: Vec::new() })
        }
    }

    /// A root node is built only for a path that exists on disk; a non-root
    /// node is always built, with no children.
    pub fn new(file_name: &str, is_root: bool) -> (r: Option<FileNode>)
        ensures
            !is_root ==> r is Some,
            r is Some ==> r->Some_0.file_name@ == file_name@ && r->Some_0.children@.len() == 0,
    {
        let present = if is_root {
            is_exist(file_name)
        } else {
            false
        };
        FileNode::new_if_present(file_name, present, is_root)
    }

    pub fn add_child(&mut self, child: FileNode)
        ensures
            final(self).file_name == old(self).file_name,
            final(self).children@ == old(self).children@.push(child),
    {
        self.children.push(child);
    }

    /// The indented tree listing: this node on one line (a trailing slash
    /// marks a directory), then its children, at most seven per level.
    pub fn render(&self, prefix: &str) -> (r: String)
        ensures
            r@ == render_node(*self, prefix@),
        decreases *self,
    {
        let mut line = prefix.to_owned();
        line.append("    ");
        let child_prefix = line.clone();
        line.append(self.file_name.as_str());
        if self.children.len() >= 1 {
            line.append("/\n");
        } else {
            line.append("\n");
        }
        let ghost header = prefix@ + "    "@ + self.file_name@ + (if self.children@.len() >= 1 {
            "/\n"@
        } else {
            "\n"@
        });
        proof {
            assert(line@ =~= header);
        }
        let n = self.children.len();
        let cap = if n < 7 {
            n
        } else {
            7
        };
        let mut i: usize = 0;
        while i < cap
            invariant
                cap <= self.children@.len(),
                cap <= 7,
                self.children@.len() < 7 ==> cap == self.children@.len(),
                7 <= self.children@.len() ==> cap == 7,
                i <= cap,
                child_prefix@ == prefix@ + "    "@,
                line@ + render_kids(self.children@, i as int, child_prefix@) == header
                    + render_kids(self.children@, 0, child_prefix@),
            decreases cap - i,
        {
            let rendered = self.children[i].render(child_prefix.as_str());
            line.append(rendered.as_str());
            proof {
                assert((line@ + render_kids(self.children@, i + 1 as int, child_prefix@)) =~= (
                header + render_kids(self.children@, 0, child_prefix@)));
            }
            i = i + 1;
        }
        proof {
            assert(render_kids(self.children@, cap as int, child_prefix@) =~= Seq::<char>::empty());
            assert(line@ =~= header + render_kids(self.children@, 0, child_prefix@));
        }
        line
    }
}

/// The rendering of one node: its own header line, then its first children.
pub open spec fn render_node(node: FileNode, prefix: Seq<char>) -> Seq<char>
    decreases node, 0int,
{
    let header = prefix + "    "@ + node.file_name@ + (if node.children@.len() >= 1 {
        "/\n"@
    } else {
        "\n"@
    });
    header + render_kids(node.children@, 0, prefix + "    "@)
}

/// The renderings of the children from position `k` on, stopping after the
/// seventh child to bound pathological trees.
pub open spec fn render_kids(cs: Seq<FileNode>, k: int, prefix: Seq<char>) -> Seq<char>
    decreases cs, 7 - k,
{
    if k < 0 || k >= 7 || k >= cs.len() {
        Seq::empty()
    } else {
        render_node(cs[k], prefix) + render_kids(cs, k + 1, prefix)
    }
}

/// The operating-system default directory shared when no root was given.
pub fn default_shared_dir(os_name: &str) -> (r: Option<&'static str>)
    ensures
        r is Some <==> default_shared_dir_name(os_name@) is Some,
        r is Some ==> r->Some_0@ == default_shared_dir_name(os_name@)->Some_0,
{
    if str_eq(os_name, "windows") {
        Some("C:\\Users\\Public")
    } else if str_eq(os_name, "macos") {
        Some("/Users/Shared")
    } else if str_eq(os_name, "linux") {
        Some("/home")
    } else if str_eq(os_name, "android") {
        Some("/sdcard")
    } else if str_eq(os_name, "ios") {
        Some("/var/mobile")
    } else {
        None
    }
}

/// A device's snapshot of its shared directory: the chosen root node.
#[derive(Debug)]
pub struct FileSystem {
    pub node: FileNode,
}

impl FileSystem {
    /// Chooses the shared root once the disk has answered for the
    /// requested path; `root_present` reports that answer. A present path
    /// is taken as it is; an absent one falls back to the operating
    /// system's default shared directory, when the system has one.
    pub fn with_root_choice(root_path: &str, root_present: bool, os_name: &str) -> (r: Option<
        FileSystem,
    >)
        ensures
            r is Some <==> (root_present || default_shared_dir_name(os_name@) is Some),
            r is Some ==> r->Some_0.node.children@.len() == 0,
            root_present ==> r is Some && r->Some_0.node.file_name@ == root_path@,
            !root_present && default_shared_dir_name(os_name@) is Some ==> r is Some
                && r->Some_0.node.file_name@ == default_shared_dir_name(os_name@)->Some_0,
    {
        if root_present {
            match FileNode::new_if_present(root_path, true, true) {
                Some(node) => Some(FileSystem { node }),
                None => None,
            }
        } else {
            match default_shared_dir(os_name) {
                Some(default_root) => match FileNode::new_if_present(default_root, true, true) {
                    Some(node) => Some(FileSystem { node }),
                    None => None,
                },
                None => None,
            }
        }
    }

    /// Asks the disk for the requested path, then chooses the shared root:
    /// the path itself when the disk has it, the operating system's
    /// default directory otherwise. Only an absent path on an unknown
    /// system yields nothing.
    pub fn new(root_path: &str, os_name: &str) -> (r: Option<FileSystem>)
        ensures
            default_shared_dir_name(os_name@) is Some ==> r is Some,
            r is None ==> default_shared_dir_name(os_name@) is None,
            r is Some ==> r->Some_0.node.children@.len() == 0,
            r is Some ==> (r->Some_0.node.file_name@ == root_path@ || (
            default_shared_dir_name(os_name@) is Some && r->Some_0.node.file_name@
                == default_shared_dir_name(os_name@)->Some_0)),
    {
        let present = is_exist(root_path);
        FileSystem::with_root_choice(root_path, present, os_name)
    }
}

/// The default shared directory as a function of the operating-system name.
pub open spec fn default_shared_dir_name(os: Seq<char>) -> Option<Seq<char>> {
    if os == "windows"@ {
        Some("C:\\Users\\Public"@)
    } else if os == "macos"@ {
        Some("/Users/Shared"@)
    } else if os == "linux"@ {
        Some("/home"@)
    } else if os == "android"@ {
        Some("/sdcard"@)
    } else if os == "ios"@ {
        Some("/var/mobile"@)
    } else {
        None
    }
}

} // verus!
