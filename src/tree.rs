use vstd::prelude::*;
use crate::error::Error;
use crate::listing::{all_text, leaf_text, lines, listing, utf8_text};

verus! {

/// One node of a metadata tree, as held in a `Tree`: a placeholder for a
/// child that could not be fetched, a leaf's text, or a directory whose
/// entries name their children by index into the tree.
#[derive(Debug)]
pub enum Slot {
    Null,
    Leaf(String),
    Dir(Vec<(String, usize)>),
}

/// What a `Slot` stands for.
pub enum SlotView {
    Null,
    Leaf(Seq<char>),
    Dir(Seq<(Seq<char>, nat)>),
}

/// The entries of a directory as names and child indices.
pub open spec fn entries_view(es: Seq<(String, usize)>) -> Seq<(Seq<char>, nat)> {
    es.map_values(|e: (String, usize)| (e.0@, e.1 as nat))
}

impl View for Slot {
    type V = SlotView;

    open spec fn view(&self) -> SlotView {
        match self {
            Slot::Null => SlotView::Null,
            Slot::Leaf(s) => SlotView::Leaf(s@),
            Slot::Dir(es) => SlotView::Dir(entries_view(es@)),
        }
    }
}

/// Whether `i` is the first entry named `k`.
pub open spec fn is_first_key(es: Seq<(Seq<char>, nat)>, k: Seq<char>, i: int) -> bool {
    &&& 0 <= i < es.len()
    &&& es[i].0 == k
    &&& forall|j: int| 0 <= j < i ==> es[j].0 != k
}

/// A directory's entries after `k` is set to `v`: an entry of that name
/// takes the new child, else the entry is added at the end.
pub open spec fn insert_entry(es: Seq<(Seq<char>, nat)>, k: Seq<char>, v: nat) -> Seq<(Seq<char>, nat)> {
    if exists|i: int| is_first_key(es, k, i) {
        let i = choose|i: int| is_first_key(es, k, i);
        es.update(i, (k, v))
    } else {
        es.push((k, v))
    }
}

fn insert_child(entries: &mut Vec<(String, usize)>, name: String, child: usize)
    ensures
        entries_view(final(entries)@) == insert_entry(entries_view(old(entries)@), name@, child as nat),
{
    let ghost es = entries_view(entries@);
    let mut i: usize = 0;
    while i < entries.len()
        invariant
            0 <= i <= entries@.len(),
            entries@ == old(entries)@,
            es == entries_view(entries@),
            forall|j: int| 0 <= j < i ==> es[j].0 != name@,
        decreases entries@.len() - i,
    {
        if entries[i].0 == name {
            assert(is_first_key(es, name@, i as int));
            let ghost c = choose|c: int| is_first_key(es, name@, c);
            assert(c == i);
            let ghost nm = name@;
            entries[i] = (name, child);
            assert(entries_view(entries@) =~= es.update(i as int, (nm, child as nat)));
            return;
        }
        i = i + 1;
    }
    assert(!exists|c: int| is_first_key(es, name@, c));
    let ghost nm = name@;
    entries.push((name, child));
    assert(entries_view(entries@) =~= es.push((nm, child as nat)));
}

/// A metadata tree, every node in one vector; the root is named apart.
#[derive(Debug)]
pub struct Tree {
    pub slots: Vec<Slot>,
    pub root: usize,
}

impl Tree {
    /// The node at index `i`, where there is one.
    pub fn slot(&self, i: usize) -> (r: Option<&Slot>)
        ensures
            i < self.slots@.len() ==> r == Some(&self.slots@[i as int]),
            i >= self.slots@.len() ==> r is None,
    {
        if i < self.slots.len() {
            Some(&self.slots[i])
        } else {
            None
        }
    }
}

/// Whether a path names a directory listing: it ends in a slash.
pub open spec fn is_listing_path(path: Seq<char>) -> bool {
    path.len() > 0 && path.last() == '/'
}

/// Tells a directory path from a leaf path.
pub fn is_listing(path: &str) -> (r: bool)
    ensures
        r == is_listing_path(path@),
{
    let n = path.unicode_len();
    n > 0 && path.get_char(n - 1) == '/'
}

/// The key a listed name takes in its directory: a subdirectory's name
/// without its trailing slash.
pub open spec fn entry_key(name: Seq<char>) -> Seq<char> {
    if is_listing_path(name) {
        name.drop_last()
    } else {
        name
    }
}

/// Computes the key of a listed name.
pub fn key_of(name: &str) -> (r: String)
    ensures
        r@ == entry_key(name@),
{
    let n = name.unicode_len();
    if n > 0 && name.get_char(n - 1) == '/' {
        String::from_str(name.substring_char(0, n - 1))
    } else {
        String::from_str(name)
    }
}

/// The path of child `name` of directory `path`.
pub fn child_path(path: &str, name: &str) -> (r: String)
    ensures
        r@ == path@ + name@,
{
    let mut r = String::from_str(path);
    r.append(name);
    r
}

/// A directory being filled: its path, the names its listing gave, how many
/// of them have been settled, and the entries so far.
struct Frame {
    path: String,
    names: Vec<String>,
    done: usize,
    entries: Vec<(String, usize)>,
}

/// What a directory being filled stands for.
pub struct FrameView {
    pub path: Seq<char>,
    pub names: Seq<Seq<char>>,
    pub done: nat,
    pub entries: Seq<(Seq<char>, nat)>,
}

impl View for Frame {
    type V = FrameView;

    closed spec fn view(&self) -> FrameView {
        FrameView {
            path: self.path@,
            names: self.names@.map_values(|n: String| n@),
            done: self.done as nat,
            entries: entries_view(self.entries@),
        }
    }
}

/// Where a walk stands: the nodes finished so far, the directories being
/// filled (innermost last), the path to fetch next, and, once the walk is
/// over, the root's index or the failure of the root itself.
pub struct WalkView {
    pub slots: Seq<SlotView>,
    pub frames: Seq<FrameView>,
    pub pending: Option<Seq<char>>,
    pub result: Option<Option<nat>>,
}

/// Every entry names a child below index `n`.
pub open spec fn entries_below(es: Seq<(Seq<char>, nat)>, n: nat) -> bool {
    forall|i: int| 0 <= i < es.len() ==> (#[trigger] es[i]).1 < n
}

/// Nodes held bottom-up: a directory's children come before it.
pub open spec fn slots_ok(slots: Seq<SlotView>) -> bool {
    forall|i: int|
        0 <= i < slots.len() ==> match #[trigger] slots[i] {
            SlotView::Dir(es) => entries_below(es, i as nat),
            _ => true,
        }
}

/// A tree whose nodes are held bottom-up, with its root among them.
pub open spec fn tree_ok(slots: Seq<SlotView>, root: nat) -> bool {
    slots_ok(slots) && root < slots.len()
}

/// A walk that is in order: it waits for a fetch exactly while it is not
/// over, every directory being filled has a name left to settle and names
/// only finished children, the finished nodes are held bottom-up, and a
/// finished root is among them.
pub open spec fn walk_ok(w: WalkView) -> bool {
    &&& (w.pending is Some <==> w.result is None)
    &&& forall|i: int| 0 <= i < w.frames.len() ==> (#[trigger] w.frames[i]).done < w.frames[i].names.len()
    &&& forall|i: int| 0 <= i < w.frames.len() ==> entries_below((#[trigger] w.frames[i]).entries, w.slots.len())
    &&& slots_ok(w.slots)
    &&& forall|r: nat| w.result == Some(Some(r)) ==> r < w.slots.len()
}

proof fn lemma_insert_below(es: Seq<(Seq<char>, nat)>, k: Seq<char>, v: nat, n: nat)
    requires
        entries_below(es, n),
        v < n,
    ensures
        entries_below(insert_entry(es, k, v), n),
{
    if exists|i: int| is_first_key(es, k, i) {
        let i = choose|i: int| is_first_key(es, k, i);
        assert(entries_below(es.update(i, (k, v)), n));
    } else {
        assert(entries_below(es.push((k, v)), n));
    }
}

/// The walk after a node has finished, with `out` as the node or `None`
/// where it failed. Below a directory the node is entered under its key, a
/// failed node as a placeholder;
/// the directory's next child is then fetched, or, where it has no names
/// left, the directory itself finishes. A finished root ends the walk.
pub open spec fn settle(w: WalkView, out: Option<SlotView>) -> WalkView
    decreases w.frames.len(),
{
    if w.frames.len() == 0 {
        match out {
            Some(s) => WalkView {
                slots: w.slots.push(s),
                frames: w.frames,
                pending: None,
                result: Some(Some(w.slots.len())),
            },
            None => WalkView { slots: w.slots, frames: w.frames, pending: None, result: Some(None) },
        }
    } else {
        let top = w.frames.last();
        let slot = match out {
            Some(s) => s,
            None => SlotView::Null,
        };
        let filled = FrameView {
            path: top.path,
            names: top.names,
            done: top.done + 1,
            entries: insert_entry(top.entries, entry_key(top.names[top.done as int]), w.slots.len()),
        };
        if filled.done < filled.names.len() {
            WalkView {
                slots: w.slots.push(slot),
                frames: w.frames.drop_last().push(filled),
                pending: Some(filled.path + filled.names[filled.done as int]),
                result: None,
            }
        } else {
            settle(
                WalkView {
                    slots: w.slots.push(slot),
                    frames: w.frames.drop_last(),
                    pending: None,
                    result: None,
                },
                Some(SlotView::Dir(filled.entries)),
            )
        }
    }
}

/// Below a directory a failed node never fails the walk: it is entered as a
/// placeholder, and the walk goes on or ends with a tree. Only the root's own
/// failure ends the walk without one.
pub proof fn lemma_child_failure_not_fatal(w: WalkView, out: Option<SlotView>)
    requires
        out is Some || w.frames.len() > 0,
    ensures
        settle(w, out).result != Some(None::<nat>),
    decreases w.frames.len(),
{
    if w.frames.len() > 0 {
        let top = w.frames.last();
        let slot = match out {
            Some(s) => s,
            None => SlotView::Null,
        };
        let entries = insert_entry(top.entries, entry_key(top.names[top.done as int]), w.slots.len());
        if top.done + 1 >= top.names.len() {
            let rest = WalkView {
                slots: w.slots.push(slot),
                frames: w.frames.drop_last(),
                pending: None,
                result: None,
            };
            lemma_child_failure_not_fatal(rest, Some(SlotView::Dir(entries)));
        }
    }
}

/// The text of each line of a listing that is all text.
pub open spec fn listed_names(body: Seq<u8>) -> Seq<Seq<char>> {
    lines(body).map_values(|l: Seq<u8>| utf8_text(l)->Some_0)
}

/// The walk after the fetch of its pending path gave `fetched` (`None` for a
/// failed fetch). A leaf path decodes the body as text. A directory path
/// reads the body as a listing: with names, the directory is opened and its
/// first child fetched; with none, it finishes empty. What cannot be decoded
/// fails the node.
pub open spec fn after_fetch(w: WalkView, fetched: Option<Seq<u8>>) -> WalkView {
    let path = w.pending->Some_0;
    match fetched {
        None => settle(w, None),
        Some(body) => if !is_listing_path(path) {
            match utf8_text(body) {
                Some(text) => settle(w, Some(SlotView::Leaf(text))),
                None => settle(w, None),
            }
        } else if !all_text(lines(body)) {
            settle(w, None)
        } else if lines(body).len() == 0 {
            settle(w, Some(SlotView::Dir(seq![])))
        } else {
            let names = listed_names(body);
            WalkView {
                slots: w.slots,
                frames: w.frames.push(FrameView { path, names, done: 0, entries: seq![] }),
                pending: Some(path + names[0]),
                result: None,
            }
        },
    }
}

/// A walk over a metadata service's tree, one fetch at a time: the caller
/// fetches `pending()`, hands the outcome to `feed`, and repeats until the
/// walk is over. A child that fails becomes a placeholder; only a failure
/// of the root fails the walk.
pub struct Walker {
    slots: Vec<Slot>,
    frames: Vec<Frame>,
    pending: Option<String>,
    result: Option<Result<usize, Error>>,
}

impl View for Walker {
    type V = WalkView;

    closed spec fn view(&self) -> WalkView {
        WalkView {
            slots: self.slots@.map_values(|s: Slot| s@),
            frames: self.frames@.map_values(|f: Frame| f@),
            pending: match self.pending {
                Some(p) => Some(p@),
                None => None,
            },
            result: match self.result {
                Some(Ok(i)) => Some(Some(i as nat)),
                Some(Err(_)) => Some(None),
                None => None,
            },
        }
    }
}

/// The outcome of a fetch as the walk sees it: the body, or `None` where the
/// fetch failed.
pub open spec fn fetched(outcome: Result<Vec<u8>, Error>) -> Option<Seq<u8>> {
    match outcome {
        Ok(body) => Some(body@),
        Err(_) => None,
    }
}

/// A node's outcome as the walk sees it.
pub open spec fn finished(out: Result<Slot, Error>) -> Option<SlotView> {
    match out {
        Ok(s) => Some(s@),
        Err(_) => None,
    }
}

/// Every directory being filled has a name left to settle.
pub open spec fn frames_ok(frames: Seq<FrameView>) -> bool {
    forall|i: int| 0 <= i < frames.len() ==> (#[trigger] frames[i]).done < frames[i].names.len()
}

impl Walker {
    /// A walk that starts by fetching `path`.
    pub fn new(path: String) -> (r: Walker)
        ensures
            walk_ok(r@),
            r@.slots.len() == 0,
            r@.frames.len() == 0,
            r@.pending == Some(path@),
            r@.result is None,
    {
        let r = Walker { slots: Vec::new(), frames: Vec::new(), pending: Some(path), result: None };
        assert(r@.slots =~= Seq::<SlotView>::empty());
        assert(r@.frames =~= Seq::<FrameView>::empty());
        r
    }

    /// The path to fetch next, while the walk is not over.
    pub fn pending(&self) -> (r: Option<String>)
        ensures
            r is Some ==> self@.pending == Some(r->Some_0@),
            r is None ==> self@.pending is None,
    {
        match &self.pending {
            Some(p) => Some(p.clone()),
            None => None,
        }
    }

    fn settle(&mut self, out: Result<Slot, Error>)
        requires
            frames_ok(old(self)@.frames),
            forall|i: int| 0 <= i < old(self)@.frames.len() ==> entries_below(
                (#[trigger] old(self)@.frames[i]).entries,
                old(self)@.slots.len(),
            ),
            slots_ok(old(self)@.slots),
            out matches Ok(Slot::Dir(es)) ==> entries_below(entries_view(es@), old(self)@.slots.len()),
        ensures
            final(self)@ == settle(old(self)@, finished(out)),
            walk_ok(final(self)@),
    {
        let ghost target = settle(self@, finished(out));
        assert(target == settle(old(self)@, finished(out)));
        self.pending = None;
        self.result = None;
        assert(settle(self@, finished(out)) == target);
        let mut cur = out;
        loop
            invariant
                frames_ok(self@.frames),
                forall|i: int| 0 <= i < self@.frames.len() ==> entries_below(
                    (#[trigger] self@.frames[i]).entries,
                    self@.slots.len(),
                ),
                slots_ok(self@.slots),
                cur matches Ok(Slot::Dir(es)) ==> entries_below(entries_view(es@), self@.slots.len()),
                self@.pending is None,
                self@.result is None,
                settle(self@, finished(cur)) == target,
                target == settle(old(self)@, finished(out)),
            decreases self.frames@.len(),
        {
            let ghost w = self@;
            let ghost o = finished(cur);
            if self.frames.len() == 0 {
                match cur {
                    Ok(s) => {
                        let i = self.slots.len();
                        self.slots.push(s);
                        self.result = Some(Ok(i));
                    },
                    Err(e) => {
                        self.result = Some(Err(e));
                    },
                }
                assert(self@.slots =~= settle(w, o).slots);
                assert(slots_ok(self@.slots)) by {
                    assert forall|k: int| 0 <= k < self@.slots.len() implies match #[trigger] self@.slots[k] {
                        SlotView::Dir(es) => entries_below(es, k as nat),
                        _ => true,
                    } by {
                        if k < w.slots.len() {
                            assert(self@.slots[k] == w.slots[k]);
                        }
                    }
                }
                assert(self@.frames == settle(w, o).frames);
                assert(self@.result == settle(w, o).result);
                assert(self@ == settle(w, o));
                return;
            }
            let i = self.slots.len();
            let slot = match cur {
                Ok(s) => s,
                Err(_) => Slot::Null,
            };
            self.slots.push(slot);
            assert(self@.slots =~= w.slots.push(slot@));
            assert(slots_ok(self@.slots)) by {
                assert forall|k: int| 0 <= k < self@.slots.len() implies match #[trigger] self@.slots[k] {
                    SlotView::Dir(es) => entries_below(es, k as nat),
                    _ => true,
                } by {
                    if k < w.slots.len() {
                        assert(self@.slots[k] == w.slots[k]);
                    }
                }
            }
            let mut top = self.frames.pop().unwrap();
            assert(self@.frames =~= w.frames.drop_last());
            assert(top@ == w.frames.last());
            assert(w.frames[w.frames.len() - 1].done < w.frames[w.frames.len() - 1].names.len());
            assert(top@.names.len() == top.names@.len());
            let name = key_of(top.names[top.done].as_str());
            proof {
                lemma_insert_below(top@.entries, name@, i as nat, self@.slots.len());
            }
            insert_child(&mut top.entries, name, i);
            assert(top.done < top.names.len());
            top.done = top.done + 1;
            assert(top@.names == w.frames.last().names);
            if top.done < top.names.len() {
                let next = child_path(top.path.as_str(), top.names[top.done].as_str());
                self.frames.push(top);
                self.pending = Some(next);
                assert(self@.frames =~= w.frames.drop_last().push(top@));
                assert(frames_ok(self@.frames));
                assert forall|k: int| 0 <= k < self@.frames.len() implies entries_below(
                    (#[trigger] self@.frames[k]).entries,
                    self@.slots.len(),
                ) by {
                    if k < self@.frames.len() - 1 {
                        assert(self@.frames[k] == w.frames[k]);
                    }
                }
                assert(self@.slots == settle(w, o).slots);
                assert(self@.frames == settle(w, o).frames);
                assert(self@.pending == settle(w, o).pending);
                assert(self@ == settle(w, o));
                return;
            }
            assert forall|k: int| 0 <= k < self@.frames.len() implies entries_below(
                (#[trigger] self@.frames[k]).entries,
                self@.slots.len(),
            ) by {
                assert(self@.frames[k] == w.frames[k]);
            }
            cur = Ok(Slot::Dir(top.entries));
        }
    }

    /// Takes in the outcome of fetching the pending path.
    pub fn feed(&mut self, outcome: Result<Vec<u8>, Error>)
        requires
            walk_ok(old(self)@),
            old(self)@.pending is Some,
        ensures
            walk_ok(final(self)@),
            final(self)@ == after_fetch(old(self)@, fetched(outcome)),
    {
        let path: String = match &self.pending {
            Some(p) => p.clone(),
            None => String::new(),
        };
        match outcome {
            Err(e) => self.settle(Err(e)),
            Ok(body) => {
                if !is_listing(path.as_str()) {
                    match leaf_text(body.as_slice()) {
                        Ok(t) => self.settle(Ok(Slot::Leaf(t))),
                        Err(e) => self.settle(Err(e)),
                    }
                } else {
                    match listing(body.as_slice()) {
                        Err(e) => self.settle(Err(e)),
                        Ok(names) => {
                            if names.len() == 0 {
                                let empty: Vec<(String, usize)> = Vec::new();
                                assert(entries_view(empty@) =~= seq![]);
                                self.settle(Ok(Slot::Dir(empty)));
                            } else {
                                let ghost w = self@;
                                let next = child_path(path.as_str(), names[0].as_str());
                                let frame = Frame { path, names, done: 0, entries: Vec::new() };
                                assert(frame@.names =~= listed_names(body@));
                                assert(frame@.entries =~= seq![]);
                                self.frames.push(frame);
                                self.pending = Some(next);
                                assert(self@.frames =~= w.frames.push(frame@));
                            }
                        },
                    }
                }
            },
        }
    }

    /// Whether the walk is over.
    pub fn is_done(&self) -> (r: bool)
        ensures
            r == (self@.result is Some),
    {
        self.result.is_some()
    }

    /// The tree the walk built, or the failure of its root; `None` while the
    /// walk is not over.
    pub fn finish(self) -> (r: Option<Result<Tree, Error>>)
        ensures
            self@.result is None ==> r is None,
            self@.result == Some(None::<nat>) ==> r is Some && r->Some_0 is Err,
            forall|i: nat| self@.result == Some(Some(i)) ==> {
                &&& r is Some
                &&& r->Some_0 is Ok
                &&& r->Some_0->Ok_0.root == i
                &&& r->Some_0->Ok_0.slots@.map_values(|s: Slot| s@) == self@.slots
            },
            walk_ok(self@) ==> (r matches Some(Ok(t)) ==> tree_ok(
                t.slots@.map_values(|s: Slot| s@),
                t.root as nat,
            )),
    {
        match self.result {
            Some(Ok(root)) => Some(Ok(Tree { slots: self.slots, root })),
            Some(Err(e)) => Some(Err(e)),
            None => None,
        }
    }
}

} // verus!
