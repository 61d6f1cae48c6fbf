//! Browser-style navigation through a device's shared folders: the current
//! path with back and forward histories.

use vstd::prelude::*;
use crate::text::{push_char, push_str, str_eq};

verus! {

/// The character views of a list of strings.
pub open spec fn path_view(p: Seq<String>) -> Seq<Seq<char>> {
    p.map_values(|s: String| s@)
}

/// The views of a list of paths.
pub open spec fn paths_view(ps: Seq<Vec<String>>) -> Seq<Seq<Seq<char>>> {
    ps.map_values(|p: Vec<String>| path_view(p@))
}

/// Navigation state: the current path (first segment is the share volume id,
/// then folder names) and the back / forward stacks (last entry on top).
pub struct ShareNavigation {
    pub path: Vec<String>,
    pub history_back: Vec<Vec<String>>,
    pub history_forward: Vec<Vec<String>>,
}

/// The value of a navigation state.
pub struct NavView {
    pub path: Seq<Seq<char>>,
    pub back: Seq<Seq<Seq<char>>>,
    pub forward: Seq<Seq<Seq<char>>>,
}

impl View for ShareNavigation {
    type V = NavView;

    open spec fn view(&self) -> NavView {
        NavView {
            path: path_view(self.path@),
            back: paths_view(self.history_back@),
            forward: paths_view(self.history_forward@),
        }
    }
}

/// The path a navigation request leads to: a volume id opens that volume's
/// root; a folder name goes one level deeper (only inside a volume).
pub open spec fn nav_target(path: Seq<Seq<char>>, volume_id: Option<Seq<char>>, name: Seq<char>) -> Option<
    Seq<Seq<char>>,
> {
    match volume_id {
        Some(id) => Some(seq![id]),
        None => if path.len() == 0 {
            None
        } else {
            Some(path.push(name))
        },
    }
}

/// The state after a navigation request; unchanged when it leads nowhere or
/// to the current path. A move records the old path for "back" and clears
/// "forward".
pub open spec fn navigate_spec(s: NavView, volume_id: Option<Seq<char>>, name: Seq<char>) -> NavView {
    match nav_target(s.path, volume_id, name) {
        Some(next) => if next == s.path {
            s
        } else {
            NavView { path: next, back: s.back.push(s.path), forward: seq![] }
        },
        None => s,
    }
}

/// The state after "back": the top of the back stack becomes the path and
/// the old path goes onto the forward stack; unchanged when there is no back.
pub open spec fn back_spec(s: NavView) -> NavView {
    if s.back.len() == 0 {
        s
    } else {
        NavView { path: s.back.last(), back: s.back.drop_last(), forward: s.forward.push(s.path) }
    }
}

/// The state after "forward", mirroring [`back_spec`].
pub open spec fn forward_spec(s: NavView) -> NavView {
    if s.forward.len() == 0 {
        s
    } else {
        NavView { path: s.forward.last(), back: s.back.push(s.path), forward: s.forward.drop_last() }
    }
}

/// `/` for the share root, else `/` followed by the segments joined by `/`.
pub open spec fn path_text(path: Seq<Seq<char>>) -> Seq<char>
    decreases path.len(),
{
    if path.len() == 0 {
        seq!['/']
    } else if path.len() == 1 {
        seq!['/'] + path[0]
    } else {
        path_text(path.drop_last()) + seq!['/'] + path.last()
    }
}

fn clone_path(p: &Vec<String>) -> (r: Vec<String>)
    ensures
        path_view(r@) == path_view(p@),
{
    let mut r: Vec<String> = Vec::new();
    let mut i: usize = 0;
    while i < p.len()
        invariant
            i <= p@.len(),
            r@.len() == i,
            path_view(r@) == path_view(p@.take(i as int)),
        decreases p@.len() - i,
    {
        let ghost prev = r@;
        let x = p[i].clone();
        r.push(x);
        proof {
            assert(r@ == prev.push(x));
            assert forall|k: int| 0 <= k < i + 1 implies #[trigger] path_view(r@)[k] == path_view(
                p@.take(i + 1),
            )[k] by {
                if k < i {
                    assert(path_view(prev)[k] == path_view(p@.take(i as int))[k]);
                }
            }
            assert(path_view(r@) =~= path_view(p@.take(i + 1)));
        }
        i = i + 1;
    }
    assert(p@.take(i as int) =~= p@);
    r
}

fn paths_equal(a: &Vec<String>, b: &Vec<String>) -> (r: bool)
    ensures
        r == (path_view(a@) == path_view(b@)),
{
    if a.len() != b.len() {
        assert(path_view(a@).len() != path_view(b@).len());
        return false;
    }
    let mut i: usize = 0;
    while i < a.len()
        invariant
            i <= a@.len(),
            a@.len() == b@.len(),
            forall|j: int| 0 <= j < i ==> path_view(a@)[j] == path_view(b@)[j],
        decreases a@.len() - i,
    {
        if !str_eq(a[i].as_str(), b[i].as_str()) {
            assert(path_view(a@)[i as int] != path_view(b@)[i as int]);
            return false;
        }
        i = i + 1;
    }
    assert(path_view(a@) =~= path_view(b@));
    true
}

impl ShareNavigation {
    /// At the share root with empty histories.
    pub fn new() -> (r: Self)
        ensures
            r@.path.len() == 0,
            r@.back.len() == 0,
            r@.forward.len() == 0,
    {
        let r = ShareNavigation { path: Vec::new(), history_back: Vec::new(), history_forward: Vec::new() };
        assert(r@.path =~= Seq::<Seq<char>>::empty());
        r
    }

    /// Back to the share root, forgetting both histories.
    pub fn reset(&mut self)
        ensures
            final(self)@.path.len() == 0,
            final(self)@.back.len() == 0,
            final(self)@.forward.len() == 0,
    {
        self.path.clear();
        self.history_back.clear();
        self.history_forward.clear();
    }

    /// Follows a navigation request (see [`navigate_spec`]); true when the
    /// path changed.
    pub fn navigate_to(&mut self, volume_id: Option<String>, name: String) -> (moved: bool)
        ensures
            final(self)@ == navigate_spec(
                old(self)@,
                match volume_id {
                    Some(v) => Some(v@),
                    None => None,
                },
                name@,
            ),
            moved == (final(self)@ != old(self)@),
    {
        let ghost vid = match &volume_id {
            Some(v) => Some(v@),
            None => None,
        };
        let ghost nm = name@;
        let next: Vec<String> = match volume_id {
            Some(id) => {
                let mut v: Vec<String> = Vec::new();
                v.push(id);
                assert(path_view(v@) =~= seq![vid->0]);
                v
            },
            None => {
                if self.path.len() == 0 {
                    assert(path_view(self.path@).len() == 0);
                    return false;
                }
                let mut v = clone_path(&self.path);
                let ghost before = v@;
                v.push(name);
                assert(path_view(v@) =~= path_view(before).push(nm));
                v
            },
        };
        if paths_equal(&next, &self.path) {
            return false;
        }
        let ghost old_view = self@;
        let current = clone_path(&self.path);
        let ghost hb = self.history_back@;
        self.history_back.push(current);
        self.history_forward.clear();
        self.path = next;
        proof {
            assert(paths_view(self.history_back@) =~= paths_view(hb).push(old_view.path));
            assert(paths_view(self.history_forward@) =~= Seq::<Seq<Seq<char>>>::empty());
            assert(self@.path != old_view.path);
        }
        true
    }

    /// Goes back (see [`back_spec`]); true when there was a previous path.
    pub fn back(&mut self) -> (moved: bool)
        ensures
            final(self)@ == back_spec(old(self)@),
            moved == (old(self)@.back.len() > 0),
    {
        let ghost old_view = self@;
        let ghost hb = self.history_back@;
        let ghost hf = self.history_forward@;
        match self.history_back.pop() {
            None => false,
            Some(prev) => {
                let current = clone_path(&self.path);
                self.history_forward.push(current);
                self.path = prev;
                proof {
                    assert(hb.len() > 0);
                    assert(self.history_back@ == hb.drop_last());
                    assert(paths_view(self.history_back@) =~= paths_view(hb).drop_last());
                    assert(paths_view(self.history_forward@) =~= paths_view(hf).push(old_view.path));
                    assert(path_view(prev@) == paths_view(hb).last());
                }
                true
            },
        }
    }

    /// Goes forward (see [`forward_spec`]); true when there was a next path.
    pub fn forward(&mut self) -> (moved: bool)
        ensures
            final(self)@ == forward_spec(old(self)@),
            moved == (old(self)@.forward.len() > 0),
    {
        let ghost old_view = self@;
        let ghost hb = self.history_back@;
        let ghost hf = self.history_forward@;
        match self.history_forward.pop() {
            None => false,
            Some(next) => {
                let current = clone_path(&self.path);
                self.history_back.push(current);
                self.path = next;
                proof {
                    assert(hf.len() > 0);
                    assert(self.history_forward@ == hf.drop_last());
                    assert(paths_view(self.history_forward@) =~= paths_view(hf).drop_last());
                    assert(paths_view(self.history_back@) =~= paths_view(hb).push(old_view.path));
                    assert(path_view(next@) == paths_view(hf).last());
                }
                true
            },
        }
    }

    /// The current path as text: `/` or `/{volume}/{folder}/...`.
    pub fn share_path_string(&self) -> (r: String)
        ensures
            r@ == path_text(self@.path),
    {
        let mut r = String::new();
        push_char(&mut r, '/');
        if self.path.len() == 0 {
            assert(r@ =~= path_text(self@.path));
            return r;
        }
        push_str(&mut r, self.path[0].as_str());
        let ghost p = self@.path;
        assert(r@ =~= path_text(p.take(1)));
        let mut i: usize = 1;
        while i < self.path.len()
            invariant
                1 <= i <= self.path@.len(),
                p == path_view(self.path@),
                r@ == path_text(p.take(i as int)),
            decreases self.path@.len() - i,
        {
            push_char(&mut r, '/');
            push_str(&mut r, self.path[i].as_str());
            proof {
                let t = p.take(i + 1);
                assert(t.drop_last() =~= p.take(i as int));
                assert(t.last() == p[i as int]);
            }
            i = i + 1;
        }
        assert(p.take(i as int) =~= p);
        r
    }
}

/// A move followed by "back" returns to the path before the move, with the
/// back stack as it was and only the left path on the forward stack.
pub proof fn law_back_undoes_navigate(s: NavView, volume_id: Option<Seq<char>>, name: Seq<char>)
    requires
        navigate_spec(s, volume_id, name) != s,
    ensures
        back_spec(navigate_spec(s, volume_id, name)).path == s.path,
        back_spec(navigate_spec(s, volume_id, name)).back == s.back,
        back_spec(navigate_spec(s, volume_id, name)).forward == seq![
            navigate_spec(s, volume_id, name).path,
        ],
{
    let n = navigate_spec(s, volume_id, name);
    assert(n.back.drop_last() =~= s.back);
    assert(Seq::<Seq<Seq<char>>>::empty().push(n.path) =~= seq![n.path]);
}

/// "Forward" right after a successful "back" restores the state exactly.
pub proof fn law_forward_undoes_back(s: NavView)
    requires
        s.back.len() > 0,
    ensures
        forward_spec(back_spec(s)) == s,
{
    let b = back_spec(s);
    assert(b.back.push(b.path) =~= s.back);
    assert(b.forward.drop_last() =~= s.forward);
}

/// "Back" right after a successful "forward" restores the state exactly.
pub proof fn law_back_undoes_forward(s: NavView)
    requires
        s.forward.len() > 0,
    ensures
        back_spec(forward_spec(s)) == s,
{
    let f = forward_spec(s);
    assert(f.forward.push(f.path) =~= s.forward);
    assert(f.back.drop_last() =~= s.back);
}

/// A move forgets the forward history; a request that leads nowhere or to
/// the current path changes nothing.
pub proof fn law_navigate_clears_forward(s: NavView, volume_id: Option<Seq<char>>, name: Seq<char>)
    ensures
        navigate_spec(s, volume_id, name) == s || navigate_spec(s, volume_id, name).forward.len()
            == 0,
        volume_id is None && s.path.len() == 0 ==> navigate_spec(s, volume_id, name) == s,
{
}

/// Back and forward move paths between the stacks without losing any:
/// the total number of remembered paths is unchanged.
pub proof fn law_history_size_preserved(s: NavView)
    ensures
        back_spec(s).back.len() + back_spec(s).forward.len() == s.back.len() + s.forward.len(),
        forward_spec(s).back.len() + forward_spec(s).forward.len() == s.back.len()
            + s.forward.len(),
{
}

} // verus!
