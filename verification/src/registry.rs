use vstd::prelude::*;

use crate::error::HelpError;
use crate::error::HelpErrorView;
use crate::strings::str_eq;

verus! {

/// One node of the hierarchical command registry: a command or subcommand
/// name, the child subcommands (names unique within a node), and the long-form
/// help content in a plain and a color-styled rendering. The registry is owned
/// by the embedding argument parser; this engine only reads it.
pub struct CommandNode {
    pub name: String,
    pub children: Vec<CommandNode>,
    pub help_plain: String,
    pub help_ansi: String,
}

/// Every node of `s` is well-formed.
pub open spec fn children_wf(s: Seq<CommandNode>) -> bool
    decreases s,
{
    if s.len() == 0 {
        true
    } else {
        s[0].wf() && children_wf(s.drop_first())
    }
}

/// Under `children_wf`, each single node of `s` is well-formed.
pub proof fn lemma_children_wf(s: Seq<CommandNode>, i: int)
    requires
        children_wf(s),
        0 <= i < s.len(),
    ensures
        s[i].wf(),
    decreases s.len(),
{
    if i > 0 {
        lemma_children_wf(s.drop_first(), i - 1);
    }
}

impl CommandNode {
    /// Child names are unique within every node of the subtree.
    pub open spec fn wf(&self) -> bool
        decreases self,
    {
        &&& forall|i: int, j: int|
            0 <= i < j < self.children@.len() ==> self.children@[i].name@
                != self.children@[j].name@
        &&& children_wf(self.children@)
    }

    /// Whether some child is named `name`.
    pub open spec fn has_child(&self, name: Seq<char>) -> bool {
        exists|i: int| 0 <= i < self.children@.len() && self.children@[i].name@ == name
    }

    /// The child named `name`; meaningful under `wf` when `has_child(name)`.
    pub open spec fn child(&self, name: Seq<char>) -> CommandNode {
        self.children@[choose|i: int|
            0 <= i < self.children@.len() && self.children@[i].name@ == name]
    }
}

/// How many leading tokens name a chain of subcommands below `node`: the walk
/// descends while the token at the current depth names a child and stops at
/// the first token that does not, or when the tokens are exhausted.
pub open spec fn matched_depth(node: CommandNode, tokens: Seq<Seq<char>>) -> int
    decreases tokens.len(),
{
    if tokens.len() == 0 {
        0
    } else if node.has_child(tokens[0]) {
        1 + matched_depth(node.child(tokens[0]), tokens.drop_first())
    } else {
        0
    }
}

/// The node that the walk of `matched_depth` ends on.
pub open spec fn matched_node(node: CommandNode, tokens: Seq<Seq<char>>) -> CommandNode
    decreases tokens.len(),
{
    if tokens.len() == 0 {
        node
    } else if node.has_child(tokens[0]) {
        matched_node(node.child(tokens[0]), tokens.drop_first())
    } else {
        node
    }
}

/// A token whose first character marks it as an option rather than a
/// subcommand name.
pub open spec fn flag_like(t: Seq<char>) -> bool {
    t.len() > 0 && t[0] == '-'
}

/// The first token that stands where a subcommand name was expected but names
/// none: the walk descends as `matched_depth` does; at the first token that
/// names no child, that token is charged unless it is flag-like (an option
/// meant for the matched command) or the node has no subcommands at all (the
/// token is a trailing positional value).
pub open spec fn first_invalid(node: CommandNode, tokens: Seq<Seq<char>>) -> Option<Seq<char>>
    decreases tokens.len(),
{
    if tokens.len() == 0 {
        None
    } else if node.has_child(tokens[0]) {
        first_invalid(node.child(tokens[0]), tokens.drop_first())
    } else if flag_like(tokens[0]) || node.children@.len() == 0 {
        None
    } else {
        Some(tokens[0])
    }
}

/// The first child of `node` named `name`.
fn find_child<'a>(node: &'a CommandNode, name: &str) -> (r: Option<&'a CommandNode>)
    requires
        node.wf(),
    ensures
        match r {
            Some(c) => node.has_child(name@) && *c == node.child(name@) && c.wf(),
            None => !node.has_child(name@),
        },
{
    let n = node.children.len();
    let mut i: usize = 0;
    while i < n
        invariant
            i <= n,
            n == node.children@.len(),
            node.wf(),
            forall|j: int| 0 <= j < i ==> node.children@[j].name@ != name@,
        decreases n - i,
    {
        if str_eq(node.children[i].name.as_str(), name) {
            proof {
                assert(node.children@[i as int].name@ == name@);
                assert(node.has_child(name@));
                let w = choose|w: int|
                    0 <= w < node.children@.len() && node.children@[w].name@ == name@;
                if w < i as int {
                    assert(node.children@[w].name@ != node.children@[i as int].name@);
                } else if w > i as int {
                    assert(node.children@[i as int].name@ != node.children@[w].name@);
                }
                assert(w == i as int);
                lemma_children_wf(node.children@, i as int);
            }
            return Some(&node.children[i]);
        }
        i += 1;
    }
    None
}

/// Whether `t` is flag-like: it begins with the option marker.
fn is_flag_like(t: &str) -> (r: bool)
    ensures
        r == flag_like(t@),
{
    if t.unicode_len() == 0 {
        false
    } else {
        t.get_char(0) == '-'
    }
}

/// Walks the registry as far as the tokens name subcommands and yields the
/// deepest node reached together with how many tokens were consumed. Stops at
/// the first token that names no child; never fails, and consuming no token
/// yields the root itself.
pub fn match_command_path<'a>(root: &'a CommandNode, tokens: &Vec<String>) -> (r: (
    &'a CommandNode,
    usize,
))
    requires
        root.wf(),
    ensures
        r.1 == matched_depth(*root, tokens.deep_view()),
        *r.0 == matched_node(*root, tokens.deep_view()),
        r.1 <= tokens@.len(),
        r.0.wf(),
{
    let ghost toks = tokens.deep_view();
    let n = tokens.len();
    let mut depth: usize = 0;
    let mut cur: &CommandNode = root;
    proof {
        assert(toks.skip(0) =~= toks);
    }
    while depth < n
        invariant
            depth <= n,
            n == toks.len(),
            toks == tokens.deep_view(),
            cur.wf(),
            matched_depth(*root, toks) == depth + matched_depth(*cur, toks.skip(depth as int)),
            matched_node(*root, toks) == matched_node(*cur, toks.skip(depth as int)),
        decreases n - depth,
    {
        proof {
            assert(toks.skip(depth as int)[0] == toks[depth as int]);
            assert(toks.skip(depth as int).drop_first() =~= toks.skip(depth as int + 1));
        }
        match find_child(cur, tokens[depth].as_str()) {
            Some(c) => {
                cur = c;
                depth = depth + 1;
            },
            None => {
                proof {
                    assert(matched_depth(*cur, toks.skip(depth as int)) == 0);
                }
                return (cur, depth);
            },
        }
    }
    proof {
        assert(toks.skip(n as int) =~= Seq::<Seq<char>>::empty());
    }
    (cur, depth)
}

/// Confirms that the token sequence references no genuinely unknown subcommand
/// name: the first token standing where a subcommand was expected without
/// naming one is reported; flag-like tokens and positional values behind a
/// command without subcommands are tolerated.
pub fn validate_command_path(root: &CommandNode, tokens: &Vec<String>) -> (r: Result<
    (),
    HelpError,
>)
    requires
        root.wf(),
    ensures
        match r {
            Ok(_) => first_invalid(*root, tokens.deep_view()) is None,
            Err(e) => {
                &&& first_invalid(*root, tokens.deep_view()) matches Some(t) && e@ == (
                HelpErrorView::InvalidSubcommand { token: t })
            },
        },
{
    let ghost toks = tokens.deep_view();
    let n = tokens.len();
    let mut depth: usize = 0;
    let mut cur: &CommandNode = root;
    proof {
        assert(toks.skip(0) =~= toks);
    }
    while depth < n
        invariant
            depth <= n,
            n == toks.len(),
            toks == tokens.deep_view(),
            cur.wf(),
            first_invalid(*root, toks) == first_invalid(*cur, toks.skip(depth as int)),
        decreases n - depth,
    {
        proof {
            assert(toks.skip(depth as int)[0] == toks[depth as int]);
            assert(toks.skip(depth as int).drop_first() =~= toks.skip(depth as int + 1));
        }
        match find_child(cur, tokens[depth].as_str()) {
            Some(c) => {
                cur = c;
                depth = depth + 1;
            },
            None => {
                if is_flag_like(tokens[depth].as_str()) || cur.children.len() == 0 {
                    return Ok(());
                }
                return Err(HelpError::InvalidSubcommand { token: tokens[depth].clone() });
            },
        }
    }
    proof {
        assert(toks.skip(n as int) =~= Seq::<Seq<char>>::empty());
    }
    Ok(())
}

/// Matching never fails: for every registry node and every finite token
/// sequence, whatever strings the tokens hold, the walk is defined and
/// consumes between zero tokens and all of them.
pub proof fn lemma_match_total(node: CommandNode, tokens: Seq<Seq<char>>)
    ensures
        0 <= matched_depth(node, tokens) <= tokens.len(),
    decreases tokens.len(),
{
    if tokens.len() > 0 && node.has_child(tokens[0]) {
        lemma_match_total(node.child(tokens[0]), tokens.drop_first());
    }
}

/// The empty token sequence always matches: it yields the root itself at
/// depth zero, whatever the registry holds.
pub proof fn lemma_match_empty(root: CommandNode)
    ensures
        matched_depth(root, Seq::<Seq<char>>::empty()) == 0,
        matched_node(root, Seq::<Seq<char>>::empty()) == root,
{
}

} // verus!
