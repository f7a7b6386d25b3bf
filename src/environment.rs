//! Lexical scopes: frames of bindings, each linked to its enclosing frame.
//!
//! Frames live in one arena and refer to their parent by index. A frame
//! that a function value has captured outlives the scope that made it; any
//! other frame is dropped when its scope ends.
use crate::value::{Val, Value};
use vstd::prelude::*;

verus! {

pub struct FrameV {
    pub vars: Seq<(Seq<char>, Val)>,
    pub parent: Option<int>,
    pub captured: bool,
}

/// What an environment is, for contracts: the frames and the innermost one.
pub struct Env {
    pub frames: Seq<FrameV>,
    pub current: int,
}

/// The first binding of `name` in `vars` at or after `i`.
pub open spec fn find_var(vars: Seq<(Seq<char>, Val)>, name: Seq<char>, i: int) -> Option<int>
    decreases vars.len() - i,
{
    if i < 0 || i >= vars.len() {
        None
    } else if vars[i].0 == name {
        Some(i)
    } else {
        find_var(vars, name, i + 1)
    }
}

/// The frame and slot that a use of `name` in frame `idx` refers to: the
/// nearest frame on the chain of parents that binds it.
pub open spec fn holder(frames: Seq<FrameV>, idx: int, name: Seq<char>) -> Option<(int, int)>
    decreases idx,
{
    if idx < 0 || idx >= frames.len() {
        None
    } else {
        match find_var(frames[idx].vars, name, 0) {
            Some(i) => Some((idx, i)),
            None => match frames[idx].parent {
                Some(p) => if 0 <= p < idx {
                    holder(frames, p, name)
                } else {
                    None
                },
                None => None,
            },
        }
    }
}

impl Env {
    pub open spec fn wf(self) -> bool {
        &&& 0 <= self.current < self.frames.len()
        &&& forall|i: int|
            0 <= i < self.frames.len() ==> match #[trigger] self.frames[i].parent {
                Some(p) => 0 <= p < i,
                None => true,
            }
    }

    pub open spec fn lookup(self, name: Seq<char>) -> Option<Val> {
        match holder(self.frames, self.current, name) {
            Some((f, i)) => Some(self.frames[f].vars[i].1),
            None => None,
        }
    }

    /// Binds `name` in the innermost frame, replacing a binding there.
    pub open spec fn define(self, name: Seq<char>, v: Val) -> Env {
        let fr = self.frames[self.current];
        let vars = match find_var(fr.vars, name, 0) {
            Some(i) => fr.vars.update(i, (name, v)),
            None => fr.vars.push((name, v)),
        };
        Env { frames: self.frames.update(self.current, FrameV { vars, ..fr }), ..self }
    }

    /// Changes the binding that `name` refers to; `None` if there is none.
    pub open spec fn assign(self, name: Seq<char>, v: Val) -> Option<Env> {
        match holder(self.frames, self.current, name) {
            Some((f, i)) => {
                let fr = self.frames[f];
                Some(
                    Env {
                        frames: self.frames.update(
                            f,
                            FrameV { vars: fr.vars.update(i, (name, v)), ..fr },
                        ),
                        ..self
                    },
                )
            },
            None => None,
        }
    }

    /// A new empty innermost frame whose parent is `parent`.
    pub open spec fn enter(self, parent: int) -> Env {
        Env {
            frames: self.frames.push(FrameV { vars: Seq::empty(), parent: Some(parent), captured: false }),
            current: self.frames.len() as int,
        }
    }

    /// Ends the scope of `frame`, going back to `saved`; the frame is dropped
    /// if it is the newest one and nothing captured it.
    pub open spec fn leave(self, frame: int, saved: int) -> Env {
        let drop = frame == self.frames.len() - 1 && !self.frames[frame].captured;
        Env {
            frames: if drop { self.frames.drop_last() } else { self.frames },
            current: saved,
        }
    }

    /// Marks the innermost frame as captured by a function value.
    pub open spec fn capture(self) -> Env {
        let fr = self.frames[self.current];
        Env { frames: self.frames.update(self.current, FrameV { captured: true, ..fr }), ..self }
    }
}

/// One binding of a name to a value.
pub struct Binding {
    pub name: String,
    pub value: Value,
}

pub struct Frame {
    vars: Vec<Binding>,
    parent: Option<usize>,
    captured: bool,
}

/// The chain of scopes that variable lookup and assignment walk.
pub struct Environment {
    frames: Vec<Frame>,
    current: usize,
}

pub open spec fn binding_view(b: Binding) -> (Seq<char>, Val) {
    (b.name@, b.value.view())
}

pub open spec fn vars_view(vars: Seq<Binding>) -> Seq<(Seq<char>, Val)> {
    vars.map_values(|b: Binding| binding_view(b))
}

proof fn lemma_find_var(vars: Seq<(Seq<char>, Val)>, name: Seq<char>, k: int)
    ensures
        find_var(vars, name, k) matches Some(i) ==> k <= i < vars.len() && vars[i].0 == name,
    decreases vars.len() - k,
{
    if 0 <= k < vars.len() && vars[k].0 != name {
        lemma_find_var(vars, name, k + 1);
    }
}

proof fn lemma_holder(frames: Seq<FrameV>, idx: int, name: Seq<char>)
    ensures
        holder(frames, idx, name) matches Some((f, i)) ==> 0 <= f < frames.len() && find_var(
            frames[f].vars,
            name,
            0,
        ) == Some(i) && 0 <= i < frames[f].vars.len(),
    decreases idx,
{
    if 0 <= idx < frames.len() {
        lemma_find_var(frames[idx].vars, name, 0);
        if find_var(frames[idx].vars, name, 0) is None {
            if let Some(p) = frames[idx].parent {
                if 0 <= p < idx {
                    lemma_holder(frames, p, name);
                }
            }
        }
    }
}

impl Frame {
    pub closed spec fn view(&self) -> FrameV {
        FrameV {
            vars: vars_view(self.vars@),
            parent: match self.parent {
                Some(p) => Some(p as int),
                None => None,
            },
            captured: self.captured,
        }
    }
}

impl Environment {
    pub closed spec fn view(&self) -> Env {
        Env {
            frames: self.frames@.map_values(|f: Frame| f.view()),
            current: self.current as int,
        }
    }

    pub open spec fn wf(&self) -> bool {
        self.view().wf()
    }

    /// An environment holding only the global frame.
    pub fn new() -> (r: Environment)
        ensures
            r.wf(),
            r.view().frames.len() == 1,
            r.view().frames[0] == (FrameV { vars: Seq::empty(), parent: None, captured: false }),
            r.view().current == 0,
    {
        let mut frames: Vec<Frame> = Vec::new();
        frames.push(Frame { vars: Vec::new(), parent: None, captured: false });
        let r = Environment { frames, current: 0 };
        assert(r.view().frames[0].vars =~= Seq::empty());
        r
    }

    pub fn frame_count(&self) -> (r: usize)
        ensures
            r == self.view().frames.len(),
    {
        self.frames.len()
    }

    pub fn current(&self) -> (r: usize)
        ensures
            r == self.view().current,
    {
        self.current
    }

    fn find(vars: &Vec<Binding>, name: &String) -> (r: Option<usize>)
        ensures
            match r {
                Some(i) => find_var(vars_view(vars@), name@, 0) == Some(i as int) && i < vars@.len(),
                None => find_var(vars_view(vars@), name@, 0) is None,
            },
    {
        let ghost vs = vars_view(vars@);
        let mut i: usize = 0;
        while i < vars.len()
            invariant
                i <= vars.len(),
                vs == vars_view(vars@),
                find_var(vs, name@, 0) == find_var(vs, name@, i as int),
            decreases vars.len() - i,
        {
            if vars[i].name == *name {
                return Some(i);
            }
            i = i + 1;
        }
        None
    }

    /// The frame and slot that `name` refers to from the innermost frame.
    fn locate(&self, name: &String) -> (r: Option<(usize, usize)>)
        requires
            self.wf(),
        ensures
            match r {
                Some((f, i)) => holder(self.view().frames, self.view().current, name@) == Some(
                    (f as int, i as int),
                ) && f < self.frames@.len() && i < self.frames@[f as int].vars@.len(),
                None => holder(self.view().frames, self.view().current, name@) is None,
            },
    {
        let ghost fs = self.view().frames;
        let mut idx: usize = self.current;
        loop
            invariant
                self.wf(),
                fs == self.view().frames,
                idx < self.frames.len(),
                holder(fs, self.view().current, name@) == holder(fs, idx as int, name@),
            decreases idx,
        {
            let fr = &self.frames[idx];
            assert(fs[idx as int] == fr.view());
            match Self::find(&fr.vars, name) {
                Some(i) => {
                    return Some((idx, i));
                },
                None => {
                    assert(fs[idx as int].parent == fr.view().parent);
                    match fr.parent {
                        Some(p) => {
                            idx = p;
                        },
                        None => {
                            return None;
                        },
                    }
                },
            }
        }
    }

    /// The value that `name` is bound to, seen from the innermost frame.
    pub fn get(&self, name: &String) -> (r: Option<Value>)
        requires
            self.wf(),
        ensures
            match self.view().lookup(name@) {
                Some(v) => r matches Some(x) && x.view() == v,
                None => r is None,
            },
    {
        proof {
            lemma_holder(self.view().frames, self.view().current, name@);
        }
        match self.locate(name) {
            Some((f, i)) => {
                assert(self.view().frames[f as int] == self.frames@[f as int].view());
                assert(self.frames@[f as int].view().vars[i as int] == binding_view(
                    self.frames@[f as int].vars@[i as int],
                ));
                let v = self.frames[f].vars[i].value.duplicate();
                assert(holder(self.view().frames, self.view().current, name@) == Some((f as int, i as int)));
                assert(self.view().lookup(name@) == Some(self.view().frames[f as int].vars[i as int].1));
                assert(v.view() == self.view().frames[f as int].vars[i as int].1);
                Some(v)
            },
            None => None,
        }
    }

    /// Binds `name` in the innermost frame.
    pub fn define(&mut self, name: String, value: Value)
        requires
            old(self).wf(),
        ensures
            final(self).wf(),
            final(self).view() == old(self).view().define(name@, value.view()),
            final(self).view().frames.len() == old(self).view().frames.len(),
            final(self).view().current == old(self).view().current,
    {
        let ghost old_env = self.view();
        let ghost nm = name@;
        let ghost vv = value.view();
        let ghost target = old_env.define(nm, vv);
        let ghost old_frames = self.frames@;
        let c = self.current;
        assert(old_env.frames[c as int] == old_frames[c as int].view());
        let ghost old_vars = old_frames[c as int].vars@;
        match Self::find(&self.frames[c].vars, &name) {
            Some(i) => {
                let b = Binding { name, value };
                let ghost gb = b;
                self.frames[c].vars.set(i, b);
                assert(self.frames@[c as int].vars@ == old_vars.update(i as int, gb));
            },
            None => {
                let b = Binding { name, value };
                let ghost gb = b;
                self.frames[c].vars.push(b);
                assert(self.frames@[c as int].vars@ == old_vars.push(gb));
            },
        }
        assert(self.frames@[c as int].view().vars =~= target.frames[c as int].vars);
        assert(self.frames@[c as int].view() == target.frames[c as int]);
        assert forall|j: int| 0 <= j < self.frames@.len() && j != c implies self.frames@[j] == old_frames[j] by {}
        assert(self.view().frames =~= target.frames);
    }

    /// Changes the binding that `name` refers to; false, and nothing
    /// changed, if no frame on the chain binds it.
    pub fn assign(&mut self, name: &String, value: Value) -> (r: bool)
        requires
            old(self).wf(),
        ensures
            final(self).wf(),
            match old(self).view().assign(name@, value.view()) {
                Some(e) => r && final(self).view() == e,
                None => !r && final(self).view() == old(self).view(),
            },
            final(self).view().frames.len() == old(self).view().frames.len(),
            final(self).view().current == old(self).view().current,
    {
        let ghost old_env = self.view();
        let ghost old_frames = self.frames@;
        proof {
            lemma_holder(old_env.frames, old_env.current, name@);
        }
        match self.locate(name) {
            Some((f, i)) => {
                let ghost e = old_env.assign(name@, value.view()).unwrap();
                assert(old_env.frames[f as int] == old_frames[f as int].view());
                let ghost old_vars = old_frames[f as int].vars@;
                let b = Binding { name: name.clone(), value };
                let ghost gb = b;
                self.frames[f].vars.set(i, b);
                assert(self.frames@[f as int].vars@ == old_vars.update(i as int, gb));
                assert(self.frames@[f as int].view().vars =~= e.frames[f as int].vars);
                assert(self.frames@[f as int].view() == e.frames[f as int]);
                assert forall|j: int| 0 <= j < self.frames@.len() && j != f implies self.frames@[j] == old_frames[j] by {}
                assert(self.view().frames =~= e.frames);
                true
            },
            None => false,
        }
    }

    /// Opens a new innermost frame whose parent is `parent`; returns its index.
    pub fn enter(&mut self, parent: usize) -> (r: usize)
        requires
            old(self).wf(),
            parent < old(self).view().frames.len(),
        ensures
            final(self).wf(),
            final(self).view() == old(self).view().enter(parent as int),
            r == old(self).view().frames.len(),
    {
        let ghost old_env = self.view();
        let n = self.frames.len();
        self.frames.push(Frame { vars: Vec::new(), parent: Some(parent), captured: false });
        self.current = n;
        assert(self.view().frames[n as int].vars =~= Seq::empty());
        assert(self.view().frames =~= old_env.enter(parent as int).frames);
        n
    }

    /// Closes the scope of `frame` and makes `saved` the innermost frame.
    pub fn leave(&mut self, frame: usize, saved: usize)
        requires
            old(self).wf(),
            saved < frame,
            frame < old(self).view().frames.len(),
        ensures
            final(self).wf(),
            final(self).view() == old(self).view().leave(frame as int, saved as int),
    {
        let ghost old_env = self.view();
        assert(self.frames@.len() == old_env.frames.len());
        if frame == self.frames.len() - 1 && !self.frames[frame].captured {
            self.frames.pop();
        }
        self.current = saved;
        assert(self.view().frames =~= old_env.leave(frame as int, saved as int).frames);
    }

    /// Marks the innermost frame as captured.
    pub fn capture(&mut self)
        requires
            old(self).wf(),
        ensures
            final(self).wf(),
            final(self).view() == old(self).view().capture(),
    {
        let ghost old_env = self.view();
        let c = self.current;
        self.frames[c].captured = true;
        assert(self.view().frames[c as int].vars =~= old_env.capture().frames[c as int].vars);
        assert(self.view().frames =~= old_env.capture().frames);
    }
}

} // verus!
