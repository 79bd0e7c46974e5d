//! Text order and joining: the order in which sorted maps keyed by strings
//! walk their keys, and lists joined by a separator.
use vstd::prelude::*;
use crate::text::push_text;

verus! {

/// `a` sorts strictly before `b`, character by character.
pub open spec fn text_lt(a: Seq<char>, b: Seq<char>) -> bool
    decreases a.len(),
{
    if a.len() == 0 {
        b.len() > 0
    } else if b.len() == 0 {
        false
    } else if (a[0] as u32) < (b[0] as u32) {
        true
    } else if (a[0] as u32) > (b[0] as u32) {
        false
    } else {
        text_lt(a.drop_first(), b.drop_first())
    }
}

proof fn lemma_text_lt_step(a: Seq<char>, b: Seq<char>, i: int)
    requires
        0 <= i < a.len(),
        i < b.len(),
        a[i] == b[i],
    ensures
        text_lt(a.skip(i), b.skip(i)) == text_lt(a.skip(i + 1), b.skip(i + 1)),
{
    assert(a.skip(i).drop_first() =~= a.skip(i + 1));
    assert(b.skip(i).drop_first() =~= b.skip(i + 1));
}

pub fn less_text(a: &str, b: &str) -> (r: bool)
    ensures
        r == text_lt(a@, b@),
{
    let na = a.unicode_len();
    let nb = b.unicode_len();
    let mut i: usize = 0;
    assert(a@.skip(0) =~= a@);
    assert(b@.skip(0) =~= b@);
    while i < na && i < nb
        invariant
            na == a@.len(),
            nb == b@.len(),
            i <= na,
            i <= nb,
            text_lt(a@, b@) == text_lt(a@.skip(i as int), b@.skip(i as int)),
        decreases na - i,
    {
        let ca = a.get_char(i);
        let cb = b.get_char(i);
        if (ca as u32) < (cb as u32) {
            return true;
        }
        if (ca as u32) > (cb as u32) {
            return false;
        }
        proof {
            lemma_text_lt_step(a@, b@, i as int);
        }
        i = i + 1;
    }
    i == na && i < nb
}

/// The parts, with `sep` between each two of them.
pub open spec fn join(parts: Seq<Seq<char>>, sep: Seq<char>) -> Seq<char>
    decreases parts.len(),
{
    if parts.len() == 0 {
        Seq::empty()
    } else if parts.len() == 1 {
        parts[0]
    } else {
        join(parts.drop_last(), sep) + sep + parts.last()
    }
}

pub open spec fn texts(v: Seq<String>) -> Seq<Seq<char>> {
    v.map_values(|s: String| s@)
}

/// Appends the parts, `sep` between each two, to `s`.
pub fn push_joined(s: &mut String, parts: &Vec<String>, sep: &str)
    ensures
        final(s)@ == old(s)@ + join(texts(parts@), sep@),
{
    let mut i: usize = 0;
    while i < parts.len()
        invariant
            i <= parts@.len(),
            s@ == old(s)@ + join(texts(parts@.subrange(0, i as int)), sep@),
        decreases parts.len() - i,
    {
        let ghost prev = s@;
        if i > 0 {
            push_text(s, sep);
        }
        push_text(s, parts[i].as_str());
        proof {
            let sub = texts(parts@.subrange(0, i + 1));
            assert(sub.drop_last() =~= texts(parts@.subrange(0, i as int)));
            assert(sub.last() == parts@[i as int]@);
            if i == 0 {
                assert(join(texts(parts@.subrange(0, 0)), sep@) =~= Seq::<char>::empty());
                assert(s@ =~= old(s)@ + join(sub, sep@));
            } else {
                assert(s@ =~= old(s)@ + join(sub, sep@));
            }
        }
        i = i + 1;
    }
    assert(parts@.subrange(0, parts@.len() as int) =~= parts@);
}

/// The first index from `k` on whose key does not sort before `key`.
pub open spec fn pos_from(keys: Seq<Seq<char>>, key: Seq<char>, k: int) -> int
    decreases keys.len() - k,
{
    if k < 0 || k >= keys.len() || !text_lt(keys[k], key) {
        k
    } else {
        pos_from(keys, key, k + 1)
    }
}

/// Keys in ascending order, each with its members in the order they came,
/// as a sorted map from a key to a list walks them.
pub struct Groups {
    pub keys: Vec<String>,
    pub members: Vec<Vec<String>>,
}

pub open spec fn texts2(v: Seq<Vec<String>>) -> Seq<Seq<Seq<char>>> {
    v.map_values(|m: Vec<String>| texts(m@))
}

/// Adds `m` under `key`: to the end of the key's list, or as a new key in
/// its sorted place.
pub open spec fn group_add(
    keys: Seq<Seq<char>>,
    members: Seq<Seq<Seq<char>>>,
    key: Seq<char>,
    m: Seq<char>,
) -> (Seq<Seq<char>>, Seq<Seq<Seq<char>>>) {
    let k = pos_from(keys, key, 0);
    if k < keys.len() && keys[k] == key {
        (keys, members.update(k, members[k].push(m)))
    } else {
        (keys.insert(k, key), members.insert(k, seq![m]))
    }
}

/// The groups that adding each `(key, member)` pair in turn builds.
pub open spec fn grouped(pairs: Seq<(Seq<char>, Seq<char>)>) -> (Seq<Seq<char>>, Seq<Seq<Seq<char>>>)
    decreases pairs.len(),
{
    if pairs.len() == 0 {
        (Seq::empty(), Seq::empty())
    } else {
        let g = grouped(pairs.drop_last());
        group_add(g.0, g.1, pairs.last().0, pairs.last().1)
    }
}

impl Groups {
    pub open spec fn key_view(&self) -> Seq<Seq<char>> {
        texts(self.keys@)
    }

    pub open spec fn member_view(&self) -> Seq<Seq<Seq<char>>> {
        texts2(self.members@)
    }

    pub open spec fn wf(&self) -> bool {
        &&& self.keys@.len() == self.members@.len()
        &&& forall|k: int| 0 <= k < self.members@.len() ==> (#[trigger] self.members@[k])@.len() > 0
    }

    pub fn new() -> (r: Groups)
        ensures
            r.wf(),
            r.key_view() == Seq::<Seq<char>>::empty(),
            r.member_view() == Seq::<Seq<Seq<char>>>::empty(),
    {
        let r = Groups { keys: Vec::new(), members: Vec::new() };
        assert(r.key_view() =~= Seq::<Seq<char>>::empty());
        assert(r.member_view() =~= Seq::<Seq<Seq<char>>>::empty());
        r
    }

    pub fn len(&self) -> (r: usize)
        ensures
            r == self.keys@.len(),
    {
        self.keys.len()
    }

    pub fn add(&mut self, key: &str, m: &str)
        requires
            old(self).wf(),
        ensures
            final(self).wf(),
            (final(self).key_view(), final(self).member_view()) == group_add(
                old(self).key_view(),
                old(self).member_view(),
                key@,
                m@,
            ),
    {
        let ghost keys0 = self.key_view();
        let mut k: usize = 0;
        while k < self.keys.len() && less_text(self.keys[k].as_str(), key)
            invariant
                self.wf(),
                self.key_view() == keys0,
                k <= self.keys@.len(),
                pos_from(keys0, key@, k as int) == pos_from(keys0, key@, 0),
            decreases self.keys.len() - k,
        {
            k = k + 1;
        }
        let mut mt = String::new();
        push_text(&mut mt, m);
        if k < self.keys.len() && crate::text::same_text(self.keys[k].as_str(), key) {
            let ghost old_members = self.members@;
            let mut list = self.members.remove(k);
            list.push(mt);
            self.members.insert(k, list);
            proof {
                assert(self.members@ =~= old_members.update(k as int, self.members@[k as int]));
                assert(texts(self.members@[k as int]@) =~= texts(old_members[k as int]@).push(m@));
                assert(self.member_view() =~= texts2(old_members).update(
                    k as int,
                    texts2(old_members)[k as int].push(m@),
                ));
            }
        } else {
            let ghost old_keys = self.keys@;
            let ghost old_members = self.members@;
            let mut kt = String::new();
            push_text(&mut kt, key);
            self.keys.insert(k, kt);
            let mut list: Vec<String> = Vec::new();
            list.push(mt);
            self.members.insert(k, list);
            proof {
                assert(self.key_view() =~= texts(old_keys).insert(k as int, key@));
                assert(texts(list@) =~= seq![m@]);
                assert(self.member_view() =~= texts2(old_members).insert(k as int, seq![m@]));
            }
        }
    }
}

} // verus!
