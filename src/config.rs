//! Node inventory and selector resolution.
use vstd::prelude::*;
use crate::text::{comma_list, decimal, eq_ignore_ascii_case, eq_ignore_case, push_decimal, push_text, same_text, split_list};

verus! {

pub struct Node {
    pub name: String,
    pub host: String,
    pub labels: Vec<String>,
}

pub struct Config {
    pub nodes: Vec<Node>,
    /// `"ssh"` or `"local"`.
    pub transport: String,
    pub ssh_user: Option<String>,
}

/// The transport used when the configuration names none.
pub fn default_transport() -> (r: String)
    ensures
        r@ == "ssh"@,
{
    let mut s = String::new();
    crate::text::push_text(&mut s, "ssh");
    s
}

/// A node answers to a selector by its name, its host or one of its labels.
pub open spec fn node_matches(n: Node, sel: Seq<char>) -> bool {
    n.name@ == sel || n.host@ == sel || exists|k: int| 0 <= k < n.labels@.len() && #[trigger] n.labels@[k]@ == sel
}

pub open spec fn matching(nodes: Seq<Node>, sel: Seq<char>) -> Seq<Node>
    decreases nodes.len(),
{
    if nodes.len() == 0 {
        Seq::empty()
    } else {
        let rest = matching(nodes.drop_last(), sel);
        if node_matches(nodes.last(), sel) {
            rest.push(nodes.last())
        } else {
            rest
        }
    }
}

/// The nodes a selector resolves to, in inventory order: every node for `all`
/// (in any letter case), else those that answer to it.
pub open spec fn selection(nodes: Seq<Node>, sel: Seq<char>) -> Seq<Node> {
    if eq_ignore_case(sel, "all"@) {
        nodes
    } else {
        matching(nodes, sel)
    }
}

fn has_label(labels: &Vec<String>, selector: &str) -> (r: bool)
    ensures
        r == exists|k: int| 0 <= k < labels@.len() && #[trigger] labels@[k]@ == selector@,
{
    let mut k: usize = 0;
    while k < labels.len()
        invariant
            k <= labels@.len(),
            forall|j: int| 0 <= j < k ==> #[trigger] labels@[j]@ != selector@,
        decreases labels.len() - k,
    {
        if same_text(labels[k].as_str(), selector) {
            return true;
        }
        k = k + 1;
    }
    false
}

fn node_answers(n: &Node, selector: &str) -> (r: bool)
    ensures
        r == node_matches(*n, selector@),
{
    same_text(n.name.as_str(), selector) || same_text(n.host.as_str(), selector) || has_label(&n.labels, selector)
}

pub fn select_nodes<'a>(cfg: &'a Config, selector: &str) -> (r: Vec<&'a Node>)
    ensures
        r@.len() == selection(cfg.nodes@, selector@).len(),
        forall|i: int| 0 <= i < r@.len() ==> *r@[i] == selection(cfg.nodes@, selector@)[i],
{
    let all = eq_ignore_ascii_case(selector, "all");
    let mut r: Vec<&'a Node> = Vec::new();
    let mut i: usize = 0;
    while i < cfg.nodes.len()
        invariant
            i <= cfg.nodes@.len(),
            all == eq_ignore_case(selector@, "all"@),
            all ==> r@.len() == i && forall|j: int| 0 <= j < i ==> *r@[j] == cfg.nodes@[j],
            !all ==> r@.len() == matching(cfg.nodes@.subrange(0, i as int), selector@).len()
                && forall|j: int| 0 <= j < r@.len() ==> *r@[j] == matching(cfg.nodes@.subrange(0, i as int), selector@)[j],
        decreases cfg.nodes.len() - i,
    {
        let ghost before = cfg.nodes@.subrange(0, i as int);
        let n = &cfg.nodes[i];
        assert(cfg.nodes@.subrange(0, i + 1).drop_last() =~= before);
        if all || node_answers(n, selector) {
            r.push(n);
        }
        i = i + 1;
    }
    assert(cfg.nodes@.subrange(0, cfg.nodes@.len() as int) =~= cfg.nodes@);
    r
}

/// An inventory given as a comma-separated host list: the `i`-th host (from
/// zero) becomes node `node-<i+1>`, without labels.
pub fn nodes_from_list(list: &str) -> (r: Vec<Node>)
    ensures
        r@.len() == comma_list(list@).len(),
        forall|i: int| 0 <= i < r@.len() ==> {
            &&& (#[trigger] r@[i]).host@ == comma_list(list@)[i]
            &&& r@[i].name@ == "node-"@ + decimal((i + 1) as nat)
            &&& r@[i].labels@.len() == 0
        },
{
    let hosts = split_list(list);
    let mut r: Vec<Node> = Vec::new();
    let mut i: usize = 0;
    while i < hosts.len()
        invariant
            i <= hosts@.len(),
            crate::order::texts(hosts@) == comma_list(list@),
            r@.len() == i,
            forall|j: int| 0 <= j < i ==> {
                &&& (#[trigger] r@[j]).host@ == comma_list(list@)[j]
                &&& r@[j].name@ == "node-"@ + decimal((j + 1) as nat)
                &&& r@[j].labels@.len() == 0
            },
        decreases hosts.len() - i,
    {
        let mut name = String::new();
        push_text(&mut name, "node-");
        push_decimal(&mut name, (i + 1) as u64);
        assert(crate::order::texts(hosts@)[i as int] == hosts@[i as int]@);
        r.push(Node { name, host: hosts[i].clone(), labels: Vec::new() });
        i = i + 1;
    }
    r
}

} // verus!
