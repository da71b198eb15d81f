//! Call stacks: the frames of each thread, by thread id.
use vstd::prelude::*;
use crate::debugging::DebugError;
use crate::idmap::IdMap;

verus! {

/// A stack frame.
#[derive(Debug)]
pub struct StackFrame {
    pub id: usize,
    pub name: String,
    pub file: Option<String>,
    pub line: usize,
    pub column: usize,
    pub end_line: Option<usize>,
}

impl StackFrame {
    /// A copy of the frame.
    pub fn duplicate(&self) -> (f: Self)
        ensures f == *self,
    {
        StackFrame {
            id: self.id,
            name: self.name.clone(),
            file: match &self.file {
                Some(s) => Some(s.clone()),
                None => None,
            },
            line: self.line,
            column: self.column,
            end_line: self.end_line,
        }
    }
}

/// A copy of a list of frames.
pub fn copy_frames(v: &Vec<StackFrame>) -> (r: Vec<StackFrame>)
    ensures r@ == v@,
{
    let mut r: Vec<StackFrame> = Vec::new();
    let mut i: usize = 0;
    while i < v.len()
        invariant
            i <= v@.len(),
            r@ == v@.subrange(0, i as int),
        decreases v.len() - i,
    {
        r.push(v[i].duplicate());
        i = i + 1;
        assert(r@ =~= v@.subrange(0, i as int));
    }
    assert(r@ =~= v@);
    r
}

/// The frame lists of a map, as sequences.
pub open spec fn frame_lists(m: Map<usize, Vec<StackFrame>>) -> Map<usize, Seq<StackFrame>> {
    m.map_values(|v: Vec<StackFrame>| v@)
}

/// The call stack manager.
pub struct CallstackManager {
    frames: IdMap<Vec<StackFrame>>,
}

impl CallstackManager {
    pub closed spec fn wf(&self) -> bool {
        self.frames.wf()
    }

    /// The frames of each thread, by thread id.
    pub closed spec fn frames_view(&self) -> Map<usize, Seq<StackFrame>> {
        frame_lists(self.frames@)
    }

    /// A manager with no frames.
    pub fn new() -> (r: Result<Self, DebugError>)
        ensures r matches Ok(m) && m.wf() && m.frames_view() == Map::<usize, Seq<StackFrame>>::empty(),
    {
        let m = CallstackManager { frames: IdMap::new() };
        assert(frame_lists(m.frames@) =~= Map::<usize, Seq<StackFrame>>::empty());
        Ok(m)
    }

    /// Set the frames of a thread.
    pub fn set_frames(&mut self, thread_id: usize, frames: Vec<StackFrame>)
        requires old(self).wf(),
        ensures
            final(self).wf(),
            final(self).frames_view() == old(self).frames_view().insert(thread_id, frames@),
    {
        let ghost before = self.frames@;
        let ghost f = frames@;
        self.frames.insert(thread_id, frames);
        assert(frame_lists(self.frames@) =~= frame_lists(before).insert(thread_id, f));
    }

    /// A copy of the frames of a thread.
    pub fn get_frames(&self, thread_id: usize) -> (r: Option<Vec<StackFrame>>)
        requires self.wf(),
        ensures
            match r {
                Some(v) => self.frames_view().contains_key(thread_id) && v@ == self.frames_view()[thread_id],
                None => !self.frames_view().contains_key(thread_id),
            },
    {
        match self.frames.get(thread_id) {
            Some(v) => Some(copy_frames(v)),
            None => None,
        }
    }

    /// A copy of a frame with id `frame_id`, from any thread's frames; none
    /// when no thread has one.
    pub fn get_frame(&self, frame_id: usize) -> (r: Option<StackFrame>)
        requires self.wf(),
        ensures
            match r {
                Some(f) => f.id == frame_id && exists|t: usize| #[trigger] self.frames_view().contains_key(t)
                    && self.frames_view()[t].contains(f),
                None => forall|t: usize, j: int| #[trigger] self.frames_view().contains_key(t)
                    && 0 <= j < self.frames_view()[t].len() ==> (#[trigger] self.frames_view()[t][j]).id != frame_id,
            },
    {
        let n = self.frames.len();
        let mut i: usize = 0;
        proof {
            self.frames.lemma_key_seq();
        }
        while i < n
            invariant
                self.wf(),
                n == self.frames.entries().len(),
                i <= n,
                self.frames.key_seq().len() == n,
                forall|k: usize| #[trigger] self.frames@.contains_key(k) <==> self.frames.key_seq().contains(k),
                forall|j: int| 0 <= j < n ==> #[trigger] self.frames@[self.frames.key_seq()[j]] == self.frames.value_seq()[j],
                forall|a: int, j: int| 0 <= a < i && 0 <= j < self.frames.value_seq()[a]@.len()
                    ==> (#[trigger] self.frames.value_seq()[a]@[j]).id != frame_id,
            decreases n - i,
        {
            let (t, frames) = self.frames.entry_at(i);
            proof {
                assert(self.frames.value_seq()[i as int] == *frames);
                assert(self.frames.key_seq()[i as int] == t);
            }
            let mut j: usize = 0;
            while j < frames.len()
                invariant
                    j <= frames@.len(),
                    forall|u: int| 0 <= u < j ==> (#[trigger] frames@[u]).id != frame_id,
                ensures
                    j <= frames@.len(),
                    forall|u: int| 0 <= u < j ==> (#[trigger] frames@[u]).id != frame_id,
                    j < frames@.len() ==> frames@[j as int].id == frame_id,
                decreases frames.len() - j,
            {
                if frames[j].id == frame_id {
                    break;
                }
                j = j + 1;
            }
            if j < frames.len() {
                let f = frames[j].duplicate();
                proof {
                    assert(self.frames.key_seq().contains(t));
                    assert(self.frames@.contains_key(t));
                    assert(self.frames_view().contains_key(t));
                    assert(self.frames@[t] == *frames);
                    assert(self.frames_view()[t] == frames@);
                    assert(frames@[j as int] == f);
                    assert(self.frames_view()[t].contains(f));
                    assert(f.id == frame_id);
                }
                return Some(f);
            }
            i = i + 1;
        }
        proof {
            assert forall|t: usize, j: int| #[trigger] self.frames_view().contains_key(t)
                && 0 <= j < self.frames_view()[t].len() implies (#[trigger] self.frames_view()[t][j]).id != frame_id by {
                assert(self.frames.key_seq().contains(t));
                let a = choose|a: int| 0 <= a < n && self.frames.key_seq()[a] == t;
                assert(self.frames@[t] == self.frames.value_seq()[a]);
                assert(self.frames.value_seq()[a]@[j] == self.frames_view()[t][j]);
            }
        }
        None
    }

    /// Forget the frames of a thread.
    pub fn clear(&mut self, thread_id: usize)
        requires old(self).wf(),
        ensures
            final(self).wf(),
            final(self).frames_view() == old(self).frames_view().remove(thread_id),
    {
        let ghost before = self.frames@;
        self.frames.remove(thread_id);
        assert(frame_lists(self.frames@) =~= frame_lists(before).remove(thread_id));
    }

    /// Forget all frames.
    pub fn clear_all(&mut self)
        ensures
            final(self).wf(),
            final(self).frames_view() == Map::<usize, Seq<StackFrame>>::empty(),
    {
        self.frames.clear();
        assert(frame_lists(self.frames@) =~= Map::<usize, Seq<StackFrame>>::empty());
    }
}

} // verus!
