//! A small rope: text held as a binary tree of short string leaves, with each
//! internal node caching the length of its left subtree. Building a rope from
//! a string and flattening it back are proved to preserve the text exactly.

use vstd::prelude::*;
use vstd::string::StrSliceExecFns;
use vstd::string::StringExecFns;

verus! {

/// Leaves hold at most this many characters.
pub const SUB_STRING_LENGTH: usize = 8;

/// One tree node: either a leaf holding text, or an internal node with the
/// length of the left subtree cached in `len`.
pub struct Node {
    pub len: usize,
    pub right: Option<Box<Node>>,
    pub left: Option<Box<Node>>,
    pub str: Option<String>,
}

/// The text under an optional subtree.
pub open spec fn opt_text(o: Option<Box<Node>>) -> Seq<char>
    decreases o,
{
    match o {
        Option::None => Seq::empty(),
        Option::Some(n) => n.text(),
    }
}

/// Well-formedness of an optional subtree.
pub open spec fn opt_wf(o: Option<Box<Node>>) -> bool
    decreases o,
{
    match o {
        Option::None => true,
        Option::Some(n) => n.wf(),
    }
}

impl Node {
    /// A node is a leaf exactly when it holds text.
    pub open spec fn is_leaf_spec(self) -> bool {
        self.str is Some
    }

    /// The text under this node: a leaf's own text, or the left subtree's
    /// text followed by the right subtree's.
    pub open spec fn text(self) -> Seq<char>
        decreases self,
    {
        match self.str {
            Option::Some(s) => s@,
            Option::None => opt_text(self.left) + opt_text(self.right),
        }
    }

    /// Well-formed node: a leaf is short, childless and has its length
    /// cached; an internal node caches its left subtree's length.
    pub open spec fn wf(self) -> bool
        decreases self,
    {
        match self.str {
            Option::Some(s) => {
                &&& self.len == s@.len()
                &&& s@.len() <= SUB_STRING_LENGTH
                &&& self.left is None
                &&& self.right is None
            },
            Option::None => {
                &&& opt_wf(self.left)
                &&& opt_wf(self.right)
                &&& self.len == opt_text(self.left).len()
            },
        }
    }

    /// An empty internal node.
    pub fn new() -> (r: Box<Node>)
        ensures
            r.len == 0,
            r.left is None,
            r.right is None,
            r.str is None,
            r.wf(),
            r.text() == Seq::<char>::empty(),
    {
        let n = Box::new(Node { len: 0, right: None, left: None, str: None });
        proof {
            assert(n.text() =~= Seq::<char>::empty());
        }
        n
    }

    /// A leaf holding the given short text.
    pub fn from(text: &str) -> (r: Box<Node>)
        requires
            text@.len() <= SUB_STRING_LENGTH,
        ensures
            r.wf(),
            r.is_leaf_spec(),
            r.text() == text@,
    {
        let len = text.unicode_len();
        Box::new(Node { len, right: None, left: None, str: Some(text.to_owned()) })
    }

    /// The length of the left subtree (of the node's own text for a leaf).
    pub fn get_left_len(&self) -> (r: usize)
        requires
            self.wf(),
        ensures
            r == if self.is_leaf_spec() {
                self.len as int
            } else {
                opt_text(self.left).len() as int
            },
    {
        if self.is_leaf() {
            return self.len;
        }
        subtree_len_from(&self.left, 0)
    }

    /// Joins two subtrees under a fresh internal node.
    pub fn join(left: Box<Node>, right: Box<Node>) -> (r: Box<Node>)
        requires
            left.wf(),
            right.wf(),
            left.text().len() <= usize::MAX,
        ensures
            r.wf(),
            r.text() == left.text() + right.text(),
    {
        let left_opt = Some(left);
        let len = subtree_len_from(&left_opt, 0);
        Box::new(Node { len, right: Some(right), left: left_opt, str: None })
    }

    /// Whether this node is a leaf.
    pub fn is_leaf(&self) -> (r: bool)
        ensures
            r == self.is_leaf_spec(),
    {
        self.str.is_some()
    }
}

/// Sums the leaf lengths under `node` onto `count`.
fn subtree_len_from(node: &Option<Box<Node>>, count: usize) -> (r: usize)
    requires
        opt_wf(*node),
        count + opt_text(*node).len() <= usize::MAX,
    ensures
        r == count + opt_text(*node).len(),
    decreases node,
{
    match node {
        Some(n) => {
            if n.is_leaf() {
                return n.len + count;
            }
            let count = subtree_len_from(&n.left, count);
            let count = subtree_len_from(&n.right, count);
            count
        },
        None => count,
    }
}

/// Appends the text under `node` to `s`.
fn subtree_string(node: &Option<Box<Node>>, s: &mut String)
    ensures
        final (s)@ == old(s)@ + opt_text(*node),
    decreases node,
{
    match node {
        Some(n) => {
            match &n.str {
                Some(t) => {
                    s.append(t.as_str());
                },
                None => {
                    subtree_string(&n.left, s);
                    subtree_string(&n.right, s);
                },
            }
        },
        None => {},
    }
    proof {
        assert(s@ =~= old(s)@ + opt_text(*node));
    }
}

/// The concatenated text of a list of subtrees, in order.
pub open spec fn concat_node_texts(ns: Seq<Box<Node>>) -> Seq<char>
    decreases ns.len(),
{
    if ns.len() == 0 {
        Seq::empty()
    } else {
        ns[0].text() + concat_node_texts(ns.skip(1))
    }
}

/// All subtrees in the list are well-formed.
pub open spec fn all_wf(ns: Seq<Box<Node>>) -> bool {
    forall|i: int| 0 <= i < ns.len() ==> (#[trigger] ns[i]).wf()
}

/// A rope: an optional tree of text leaves.
pub struct Rope {
    pub root: Option<Box<Node>>,
}

impl Rope {
    /// The rope's text.
    pub open spec fn text(self) -> Seq<char> {
        opt_text(self.root)
    }

    /// Well-formed rope.
    pub open spec fn wf(self) -> bool {
        opt_wf(self.root)
    }

    /// An empty rope.
    pub fn new() -> (r: Rope)
        ensures
            r.wf(),
            r.text() == Seq::<char>::empty(),
    {
        Rope { root: None }
    }

    /// Builds a rope holding exactly the given text: the text is cut into
    /// short leaves, which are then joined pairwise from the front.
    pub fn from(text: String) -> (r: Rope)
        ensures
            r.wf(),
            r.text() == text@,
    {
        let s = text.as_str();
        let n = s.unicode_len();
        let mut nodes: Vec<Box<Node>> = Vec::new();
        let mut i: usize = 0;
        while i < n
            invariant
                i <= n,
                n == text@.len(),
                s@ == text@,
                all_wf(nodes@),
                concat_node_texts(nodes@) == text@.take(i as int),
            decreases n - i,
        {
            let end = if n - i > SUB_STRING_LENGTH {
                i + SUB_STRING_LENGTH
            } else {
                n
            };
            let chunk = s.substring_char(i, end);
            let leaf = Node::from(chunk);
            let ghost pre = nodes@;
            nodes.push(leaf);
            proof {
                lemma_concat_push(pre, leaf);
                assert(nodes@ =~= pre.push(leaf));
                assert(text@.take(i as int) + text@.subrange(i as int, end as int) =~= text@.take(
                    end as int,
                ));
            }
            i = end;
        }
        proof {
            assert(text@.take(n as int) =~= text@);
        }
        while nodes.len() > 1
            invariant
                all_wf(nodes@),
                concat_node_texts(nodes@) == text@,
                text@.len() <= usize::MAX,
            decreases nodes.len(),
        {
            let ghost pre = nodes@;
            let first = nodes.remove(0);
            let sec = nodes.remove(0);
            let ghost rest = nodes@;
            proof {
                assert(pre.skip(1) =~= seq![sec] + rest);
                assert(pre.skip(1).skip(1) =~= rest);
                assert(concat_node_texts(pre) == first.text() + concat_node_texts(pre.skip(1)));
                assert(concat_node_texts(pre.skip(1)) == sec.text() + concat_node_texts(rest));
                lemma_concat_len_bound(pre, 0);
            }
            let joined = Node::join(first, sec);
            nodes.insert(0, joined);
            proof {
                assert(nodes@.skip(1) =~= rest);
                assert(concat_node_texts(nodes@) == joined.text() + concat_node_texts(rest));
                assert((first.text() + sec.text()) + concat_node_texts(rest) =~= first.text() + (
                sec.text() + concat_node_texts(rest)));
            }
        }
        if nodes.len() == 0 {
            return Rope { root: None };
        }
        let ghost pre = nodes@;
        let root = nodes.pop().unwrap();
        proof {
            assert(pre.len() == 1);
            assert(root == pre[0]);
            assert(pre.skip(1) =~= Seq::<Box<Node>>::empty());
            assert(concat_node_texts(pre) == root.text() + concat_node_texts(
                Seq::<Box<Node>>::empty(),
            ));
            assert(concat_node_texts(Seq::<Box<Node>>::empty()) == Seq::<char>::empty());
            assert(root.text() + Seq::<char>::empty() =~= root.text());
        }
        Rope { root: Some(root) }
    }

    /// Flattens the rope back into a string.
    pub fn to_string(&self) -> (r: String)
        ensures
            r@ == self.text(),
    {
        let mut s = String::new();
        subtree_string(&self.root, &mut s);
        proof {
            assert(s@ =~= self.text());
        }
        s
    }
}

/// Appending a subtree appends its text.
proof fn lemma_concat_push(ns: Seq<Box<Node>>, n: Box<Node>)
    ensures
        concat_node_texts(ns.push(n)) == concat_node_texts(ns) + n.text(),
    decreases ns.len(),
{
    if ns.len() == 0 {
        assert(ns.push(n)[0] == n);
        assert(ns.push(n).skip(1) =~= Seq::<Box<Node>>::empty());
        assert(concat_node_texts(ns.push(n)) == n.text() + concat_node_texts(
            Seq::<Box<Node>>::empty(),
        ));
        assert(concat_node_texts(Seq::<Box<Node>>::empty()) == Seq::<char>::empty());
        assert(concat_node_texts(ns) == Seq::<char>::empty());
        assert(n.text() + Seq::<char>::empty() =~= Seq::<char>::empty() + n.text());
    } else {
        lemma_concat_push(ns.skip(1), n);
        assert(ns.push(n).skip(1) =~= ns.skip(1).push(n));
        assert(concat_node_texts(ns.push(n)) == ns[0].text() + concat_node_texts(
            ns.skip(1).push(n),
        ));
        assert(concat_node_texts(ns.push(n)) =~= concat_node_texts(ns) + n.text());
    }
}

/// Every subtree's text is no longer than the whole concatenation.
proof fn lemma_concat_len_bound(ns: Seq<Box<Node>>, i: int)
    requires
        0 <= i < ns.len(),
    ensures
        ns[i].text().len() <= concat_node_texts(ns).len(),
    decreases ns.len(),
{
    if i > 0 {
        lemma_concat_len_bound(ns.skip(1), i - 1);
    }
}

} // verus!
