//! The viewer's state: one tab per producer id in order of first appearance,
//! the lines relayed under each, and which tab is shown.

use vstd::prelude::*;
use vstd::arithmetic::div_mod::{lemma_add_mod_noop, lemma_mod_add_multiples_vanish, lemma_small_mod};
use crate::event::{parse_frame, split_frame};

verus! {

/// The model of the viewer's state.
pub struct ViewerModel {
    pub tabs: Seq<Seq<char>>,
    pub buffers: Seq<Seq<Seq<char>>>,
    pub active: int,
    pub ended: bool,
}

/// The tab after `i` among `n` tabs, wrapping round; with one tab or none it
/// stays where it is.
pub open spec fn next_index(i: int, n: int) -> int {
    if n <= 1 {
        i
    } else {
        (i + 1) % n
    }
}

/// The tab before `i` among `n` tabs, wrapping from the first to the last;
/// with one tab or none it stays where it is.
pub open spec fn prev_index(i: int, n: int) -> int {
    if n <= 1 {
        i
    } else {
        (i - 1 + n) % n
    }
}

/// Where `id` stands among `tabs`, or -1.
pub open spec fn position(tabs: Seq<Seq<char>>, id: Seq<char>) -> int {
    if exists|k: int| 0 <= k < tabs.len() && tabs[k] == id {
        choose|k: int| 0 <= k < tabs.len() && tabs[k] == id
    } else {
        -1
    }
}

/// The state after `line` is relayed under `id`: a new id gets a tab at the
/// end, and the line goes to the end of that id's buffer. The shown tab stays.
pub open spec fn ingested(m: ViewerModel, id: Seq<char>, line: Seq<char>) -> ViewerModel {
    let k = position(m.tabs, id);
    if k >= 0 {
        ViewerModel { buffers: m.buffers.update(k, m.buffers[k].push(line)), ..m }
    } else {
        ViewerModel { tabs: m.tabs.push(id), buffers: m.buffers.push(seq![line]), ..m }
    }
}

/// The state of a viewer that has just attached: no tabs.
pub open spec fn empty_viewer() -> ViewerModel {
    ViewerModel { tabs: Seq::empty(), buffers: Seq::empty(), active: 0, ended: false }
}

/// What is shown when there is no tab: `None`.
pub open spec fn placeholder() -> Seq<char> {
    seq!['N', 'o', 'n', 'e']
}

/// The name of the tab that shows an error.
pub open spec fn error_tab() -> Seq<char> {
    seq!['E', 'r', 'r', 'o', 'r']
}

pub open spec fn lines_view(v: Seq<String>) -> Seq<Seq<char>> {
    v.map_values(|s: String| s@)
}

/// The tab names to draw, and which one is highlighted.
pub open spec fn tab_info(m: ViewerModel) -> (Seq<Seq<char>>, int) {
    if m.tabs.len() == 0 {
        (seq![placeholder()], 0)
    } else {
        (m.tabs, m.active)
    }
}

/// The lines to draw: those of the shown tab.
pub open spec fn shown_lines(m: ViewerModel) -> Seq<Seq<char>> {
    if m.tabs.len() == 0 {
        seq![placeholder()]
    } else {
        m.buffers[m.active]
    }
}

/// An error shown in place of the relayed lines.
pub struct TuiErr {
    message: String,
}

impl TuiErr {
    pub closed spec fn message_spec(&self) -> Seq<char> {
        self.message@
    }

    pub fn new(message: String) -> (r: TuiErr)
        ensures
            r.message_spec() == message@,
    {
        TuiErr { message }
    }
}

/// No tab stands at the index asked for.
#[derive(PartialEq, Eq, Structural, Clone, Copy, Debug)]
pub struct NoTab;

/// The viewer's state. It is shared by the thread that ingests relayed lines
/// and the loop that draws and navigates, each taking it for one operation.
pub struct AppState {
    index: usize,
    tabs: Vec<String>,
    buffers: Vec<Vec<String>>,
    end: bool,
}

impl View for AppState {
    type V = ViewerModel;

    closed spec fn view(&self) -> ViewerModel {
        ViewerModel {
            tabs: lines_view(self.tabs@),
            buffers: self.buffers@.map_values(|b: Vec<String>| lines_view(b@)),
            active: self.index as int,
            ended: self.end,
        }
    }
}

/// Tabs are distinct; each has a buffer; the shown tab exists when there are
/// tabs, and is 0 when there are none.
pub open spec fn viewer_wf(m: ViewerModel) -> bool {
    &&& m.tabs.len() == m.buffers.len()
    &&& forall|i: int, j: int|
        0 <= i < j < m.tabs.len() ==> #[trigger] m.tabs[i] != #[trigger] m.tabs[j]
    &&& if m.tabs.len() == 0 {
        m.active == 0
    } else {
        0 <= m.active < m.tabs.len()
    }
}

/// A copy of a list of lines.
pub fn copy_lines(v: &Vec<String>) -> (r: Vec<String>)
    ensures
        r@ == v@,
{
    let mut r: Vec<String> = Vec::new();
    let mut i: usize = 0;
    while i < v.len()
        invariant
            i <= v@.len(),
            r@ == v@.subrange(0, i as int),
        decreases v@.len() - i,
    {
        r.push(v[i].clone());
        i += 1;
        assert(r@ =~= v@.subrange(0, i as int));
    }
    assert(v@.subrange(0, v@.len() as int) =~= v@);
    r
}

fn placeholder_lines() -> (r: Vec<String>)
    ensures
        lines_view(r@) == seq![placeholder()],
{
    let text = "None";
    proof {
        reveal_strlit("None");
    }
    assert(text@ =~= placeholder());
    let r = vec![String::from_str(text)];
    assert(r@.len() == 1 && r@[0]@ == placeholder());
    assert(lines_view(r@) =~= seq![placeholder()]);
    r
}

impl AppState {
    /// A viewer with no tabs.
    pub fn new() -> (r: AppState)
        ensures
            r@ == empty_viewer(),
            viewer_wf(r@),
    {
        let r = AppState { index: 0, tabs: Vec::new(), buffers: Vec::new(), end: false };
        assert(r@.tabs =~= Seq::<Seq<char>>::empty());
        assert(r@.buffers =~= Seq::<Seq<Seq<char>>>::empty());
        r
    }

    /// Files `line` under `id`, opening a tab for `id` at the end if it has
    /// none. The first id ever ingested becomes the shown tab.
    pub fn ingest(&mut self, id: String, line: String)
        requires
            viewer_wf(old(self)@),
        ensures
            viewer_wf(final(self)@),
            final(self)@ == ingested(old(self)@, id@, line@),
            old(self)@.tabs.len() == 0 ==> final(self)@.active == 0 && final(self)@.tabs == seq![id@],
    {
        let ghost m = self@;
        match self.tab_position(&id) {
            Some(k) => {
                proof {
                    let c = choose|c: int| 0 <= c < m.tabs.len() && m.tabs[c] == id@;
                    if c != k as int {
                        if c < k {
                            assert(m.tabs[c] == m.tabs[k as int]);
                        } else {
                            assert(m.tabs[k as int] == m.tabs[c]);
                        }
                    }
                }
                let ghost ob = self.buffers@;
                let mut b: Vec<String> = Vec::new();
                self.buffers.set_and_swap(k, &mut b);
                assert(b@ == ob[k as int]@);
                b.push(line);
                assert(lines_view(b@) =~= lines_view(ob[k as int]@).push(line@));
                self.buffers.set(k, b);
                proof {
                    assert(self.buffers@ == ob.update(k as int, b));
                    assert(self@.buffers =~= m.buffers.update(k as int, m.buffers[k as int].push(line@)));
                    assert(self@ == ingested(m, id@, line@));
                }
            },
            None => {
                proof {
                    assert(position(m.tabs, id@) == -1);
                }
                self.tabs.push(id);
                self.buffers.push(vec![line]);
                proof {
                    assert(self@.tabs =~= m.tabs.push(id@));
                    assert(lines_view(self.buffers@.last()@) =~= seq![line@]);
                    assert(self@.buffers =~= m.buffers.push(seq![line@]));
                }
            },
        }
    }

    /// Where `id` stands among the tabs, if it has one.
    fn tab_position(&self, id: &String) -> (r: Option<usize>)
        ensures
            match r {
                Some(k) => k < self@.tabs.len() && self@.tabs[k as int] == id@,
                None => forall|j: int| 0 <= j < self@.tabs.len() ==> self@.tabs[j] != id@,
            },
    {
        let n = self.tabs.len();
        let mut k: usize = 0;
        while k < n
            invariant
                n == self@.tabs.len(),
                k <= n,
                forall|j: int| 0 <= j < k ==> self@.tabs[j] != id@,
            decreases n - k,
        {
            if self.tabs[k] == *id {
                return Some(k);
            }
            k += 1;
        }
        None
    }

    /// Shows the tab `next_tab`, or keeps the shown one when `None`. Fails,
    /// changing nothing, when no such tab exists.
    pub fn update_state(&mut self, next_tab: Option<usize>) -> (r: Result<(), NoTab>)
        requires
            viewer_wf(old(self)@),
        ensures
            viewer_wf(final(self)@),
            ({
                let t = match next_tab {
                    Some(t) => t as int,
                    None => old(self)@.active,
                };
                &&& (r is Ok <==> (t == old(self)@.active || t < old(self)@.tabs.len()))
                &&& final(self)@ == if r is Ok {
                    ViewerModel { active: t, ..old(self)@ }
                } else {
                    old(self)@
                }
            }),
    {
        let t = match next_tab {
            Some(t) => t,
            None => self.index,
        };
        if t == self.index {
            return Ok(());
        }
        if t >= self.tabs.len() {
            return Err(NoTab);
        }
        self.index = t;
        Ok(())
    }

    /// Shows the next tab, wrapping round.
    pub fn next(&mut self)
        requires
            viewer_wf(old(self)@),
        ensures
            viewer_wf(final(self)@),
            final(self)@ == (ViewerModel {
                active: next_index(old(self)@.active, old(self)@.tabs.len() as int),
                ..old(self)@
            }),
    {
        let n = self.tabs.len();
        if n <= 1 {
            return;
        }
        let i = (self.index + 1) % n;
        let _ = self.update_state(Some(i));
    }

    /// Shows the previous tab, wrapping from the first to the last.
    pub fn previous(&mut self)
        requires
            viewer_wf(old(self)@),
        ensures
            viewer_wf(final(self)@),
            final(self)@ == (ViewerModel {
                active: prev_index(old(self)@.active, old(self)@.tabs.len() as int),
                ..old(self)@
            }),
    {
        let n = self.tabs.len();
        if n <= 1 {
            return;
        }
        let i = if self.index > 0 {
            self.index - 1
        } else {
            n - 1
        };
        proof {
            let a = old(self)@.active;
            if a > 0 {
                lemma_small_mod((a - 1) as nat, n as nat);
                lemma_mod_add_multiples_vanish(a - 1, n as int);
            } else {
                lemma_small_mod((n - 1) as nat, n as nat);
            }
        }
        let _ = self.update_state(Some(i));
    }

    /// Replaces everything with one tab that shows the error.
    pub fn update_from_err(&mut self, err: TuiErr)
        ensures
            viewer_wf(final(self)@),
            final(self)@ == (ViewerModel {
                tabs: seq![error_tab()],
                buffers: seq![seq![err.message_spec()]],
                active: 0,
                ended: old(self)@.ended,
            }),
    {
        let name = "Error";
        proof {
            reveal_strlit("Error");
        }
        self.index = 0;
        assert(name@ =~= error_tab());
        self.tabs = vec![String::from_str(name)];
        self.buffers = vec![vec![err.message]];
        proof {
            assert(self.tabs@[0]@ == error_tab());
            assert(self@.tabs =~= seq![error_tab()]);
            assert(self@.buffers[0] =~= seq![err.message_spec()]);
            assert(self@.buffers =~= seq![seq![err.message_spec()]]);
        }
    }

    /// Asks the thread that ingests relayed lines to stop.
    pub fn quit(&mut self)
        ensures
            final(self)@ == (ViewerModel { ended: true, ..old(self)@ }),
    {
        self.end = true;
    }

    pub fn is_ended(&self) -> (r: bool)
        ensures
            r == self@.ended,
    {
        self.end
    }

    /// The tab names to draw, and which one is highlighted; a single `None`
    /// tab when there are none.
    pub fn tab_info(&self) -> (r: (Vec<String>, usize))
        requires
            viewer_wf(self@),
        ensures
            (lines_view(r.0@), r.1 as int) == tab_info(self@),
    {
        if self.tabs.len() == 0 {
            (placeholder_lines(), 0)
        } else {
            (copy_lines(&self.tabs), self.index)
        }
    }

    /// The lines of the shown tab; a single `None` line when there is no tab.
    pub fn shown_lines(&self) -> (r: Vec<String>)
        requires
            viewer_wf(self@),
        ensures
            lines_view(r@) == shown_lines(self@),
    {
        if self.tabs.len() == 0 {
            placeholder_lines()
        } else {
            copy_lines(&self.buffers[self.index])
        }
    }
}

/// The state after each of `pairs`, an id and a line, is relayed in order.
pub open spec fn ingested_all(m: ViewerModel, pairs: Seq<(Seq<char>, Seq<char>)>) -> ViewerModel
    decreases pairs.len(),
{
    if pairs.len() == 0 {
        m
    } else {
        ingested(ingested_all(m, pairs.drop_last()), pairs.last().0, pairs.last().1)
    }
}

/// The lines relayed under `id` among `pairs`, in order.
pub open spec fn lines_for(pairs: Seq<(Seq<char>, Seq<char>)>, id: Seq<char>) -> Seq<Seq<char>>
    decreases pairs.len(),
{
    if pairs.len() == 0 {
        Seq::empty()
    } else if pairs.last().0 == id {
        lines_for(pairs.drop_last(), id).push(pairs.last().1)
    } else {
        lines_for(pairs.drop_last(), id)
    }
}

/// The lines filed under `id`; none if it has no tab.
pub open spec fn buffer_of(m: ViewerModel, id: Seq<char>) -> Seq<Seq<char>> {
    let k = position(m.tabs, id);
    if k >= 0 {
        m.buffers[k]
    } else {
        Seq::empty()
    }
}

proof fn lemma_position_at(tabs: Seq<Seq<char>>, id: Seq<char>, k: int)
    requires
        forall|i: int, j: int| 0 <= i < j < tabs.len() ==> #[trigger] tabs[i] != #[trigger] tabs[j],
        0 <= k < tabs.len(),
        tabs[k] == id,
    ensures
        position(tabs, id) == k,
{
    let c = choose|c: int| 0 <= c < tabs.len() && tabs[c] == id;
    if c < k {
        assert(tabs[c] != tabs[k]);
    } else if k < c {
        assert(tabs[k] != tabs[c]);
    }
}

proof fn lemma_ingested_one(m: ViewerModel, i: Seq<char>, l: Seq<char>, id: Seq<char>)
    requires
        viewer_wf(m),
    ensures
        viewer_wf(ingested(m, i, l)),
        buffer_of(ingested(m, i, l), id) == if i == id {
            buffer_of(m, id).push(l)
        } else {
            buffer_of(m, id)
        },
{
    let m2 = ingested(m, i, l);
    let k = position(m.tabs, i);
    if k >= 0 {
        let c = choose|c: int| 0 <= c < m.tabs.len() && m.tabs[c] == i;
        assert(0 <= k < m.tabs.len() && m.tabs[k] == i);
        if exists|q: int| 0 <= q < m.tabs.len() && m.tabs[q] == id {
            let q = choose|q: int| 0 <= q < m.tabs.len() && m.tabs[q] == id;
            lemma_position_at(m.tabs, id, q);
            if q == k {
                assert(i == id);
            } else {
                assert(i != id) by {
                    if i == id {
                        lemma_position_at(m.tabs, i, q);
                    }
                }
            }
        } else {
            assert(i != id);
        }
    } else {
        assert(forall|q: int| 0 <= q < m.tabs.len() ==> m.tabs[q] != i);
        let t2 = m.tabs.push(i);
        assert forall|a: int, b: int| 0 <= a < b < t2.len() implies #[trigger] t2[a] != #[trigger] t2[b] by {
            if b == m.tabs.len() {
                assert(t2[a] == m.tabs[a]);
            } else {
                assert(m.tabs[a] != m.tabs[b]);
            }
        }
        assert(viewer_wf(m2));
        if i == id {
            lemma_position_at(t2, id, m.tabs.len() as int);
            assert(position(m.tabs, id) == -1);
        } else if exists|q: int| 0 <= q < m.tabs.len() && m.tabs[q] == id {
            let q = choose|q: int| 0 <= q < m.tabs.len() && m.tabs[q] == id;
            lemma_position_at(m.tabs, id, q);
            assert(t2[q] == id);
            lemma_position_at(t2, id, q);
        } else {
            assert(!exists|q: int| 0 <= q < t2.len() && t2[q] == id) by {
                assert forall|q: int| 0 <= q < t2.len() implies t2[q] != id by {
                    if q < m.tabs.len() {
                        assert(t2[q] == m.tabs[q]);
                    }
                }
            }
        }
    }
}

/// Lines relayed under one id are filed under it in the order they were
/// relayed, whatever lines of other ids come between them.
pub proof fn lemma_lines_kept_in_order(
    m: ViewerModel,
    pairs: Seq<(Seq<char>, Seq<char>)>,
    id: Seq<char>,
)
    requires
        viewer_wf(m),
    ensures
        viewer_wf(ingested_all(m, pairs)),
        buffer_of(ingested_all(m, pairs), id) == buffer_of(m, id) + lines_for(pairs, id),
    decreases pairs.len(),
{
    if pairs.len() == 0 {
        assert(buffer_of(m, id) + Seq::<Seq<char>>::empty() =~= buffer_of(m, id));
    } else {
        let rest = pairs.drop_last();
        lemma_lines_kept_in_order(m, rest, id);
        let p = pairs.last();
        lemma_ingested_one(ingested_all(m, rest), p.0, p.1, id);
        if p.0 == id {
            assert((buffer_of(m, id) + lines_for(rest, id)).push(p.1) =~= buffer_of(m, id)
                + lines_for(rest, id).push(p.1));
        }
    }
}

/// Moves `k` tabs on from `i` among `n` tabs.
pub open spec fn next_n(i: int, n: int, k: nat) -> int
    decreases k,
{
    if k == 0 {
        i
    } else {
        next_index(next_n(i, n, (k - 1) as nat), n)
    }
}

proof fn lemma_next_n_mod(i: int, n: int, k: nat)
    requires
        0 <= i < n,
        n > 1,
    ensures
        next_n(i, n, k) == (i + k) % n,
    decreases k,
{
    if k == 0 {
        lemma_small_mod(i as nat, n as nat);
    } else {
        lemma_next_n_mod(i, n, (k - 1) as nat);
        lemma_small_mod(1, n as nat);
        lemma_add_mod_noop(i + k - 1, 1, n);
    }
}

/// Moving on once per tab comes back to the tab one started from; with a
/// single tab, moving on or back stays put.
pub proof fn lemma_next_cycles(i: int, n: int)
    requires
        0 <= i < n,
    ensures
        next_n(i, n, n as nat) == i,
        n == 1 ==> next_index(i, n) == i && prev_index(i, n) == i,
    decreases n,
{
    if n > 1 {
        lemma_next_n_mod(i, n, n as nat);
        lemma_mod_add_multiples_vanish(i, n);
        lemma_small_mod(i as nat, n as nat);
    } else {
        assert(next_n(i, n, 0) == i);
        assert(next_n(i, n, 1) == i);
    }
}

/// The viewer: the collector's socket path and the state shown.
pub struct TuiApp {
    socket_path: String,
    app: AppState,
}

impl TuiApp {
    pub closed spec fn state(&self) -> ViewerModel {
        self.app@
    }

    pub closed spec fn socket_spec(&self) -> Seq<char> {
        self.socket_path@
    }

    /// A viewer of the collector on `socket_path`, with no tabs yet.
    pub fn new(socket_path: String) -> (r: TuiApp)
        ensures
            r.state() == empty_viewer(),
            viewer_wf(r.state()),
            r.socket_spec() == socket_path@,
    {
        TuiApp { socket_path, app: AppState::new() }
    }

    pub fn socket_path(&self) -> (r: String)
        ensures
            r@ == self.socket_spec(),
    {
        self.socket_path.clone()
    }

    /// Files one relayed line, `<id> -ENDID- <content>`, under its id. A line
    /// without the separator is dropped (`false`); once the viewer has quit,
    /// every line is dropped.
    pub fn ingest_relayed(&mut self, line: &str) -> (r: bool)
        requires
            viewer_wf(old(self).state()),
        ensures
            viewer_wf(final(self).state()),
            final(self).socket_spec() == old(self).socket_spec(),
            old(self).state().ended ==> !r && final(self).state() == old(self).state(),
            !old(self).state().ended ==> match split_frame(line@) {
                Some((id, content)) => r && final(self).state() == ingested(old(self).state(), id, content),
                None => !r && final(self).state() == old(self).state(),
            },
    {
        if self.app.is_ended() {
            return false;
        }
        match parse_frame(line) {
            Some((id, content)) => {
                self.app.ingest(id, content);
                true
            },
            None => false,
        }
    }

    /// The tab names to draw, and which one is highlighted.
    pub fn get_tab_info(&self) -> (r: (Vec<String>, usize))
        requires
            viewer_wf(self.state()),
        ensures
            (lines_view(r.0@), r.1 as int) == tab_info(self.state()),
    {
        self.app.tab_info()
    }

    /// The lines of the shown tab.
    pub fn get_text_widgets(&self) -> (r: Vec<String>)
        requires
            viewer_wf(self.state()),
        ensures
            lines_view(r@) == shown_lines(self.state()),
    {
        self.app.shown_lines()
    }

    pub fn next(&mut self)
        requires
            viewer_wf(old(self).state()),
        ensures
            viewer_wf(final(self).state()),
            final(self).socket_spec() == old(self).socket_spec(),
            final(self).state() == (ViewerModel {
                active: next_index(old(self).state().active, old(self).state().tabs.len() as int),
                ..old(self).state()
            }),
    {
        self.app.next();
    }

    pub fn previous(&mut self)
        requires
            viewer_wf(old(self).state()),
        ensures
            viewer_wf(final(self).state()),
            final(self).socket_spec() == old(self).socket_spec(),
            final(self).state() == (ViewerModel {
                active: prev_index(old(self).state().active, old(self).state().tabs.len() as int),
                ..old(self).state()
            }),
    {
        self.app.previous();
    }

    /// Asks the thread that ingests relayed lines to stop.
    pub fn quit(&mut self)
        ensures
            final(self).socket_spec() == old(self).socket_spec(),
            final(self).state() == (ViewerModel { ended: true, ..old(self).state() }),
    {
        self.app.quit();
    }

    pub fn is_ended(&self) -> (r: bool)
        ensures
            r == self.state().ended,
    {
        self.app.is_ended()
    }

    /// Shows `message` in a single `Error` tab in place of everything else.
    pub fn show_error(&mut self, message: String)
        ensures
            viewer_wf(final(self).state()),
            final(self).socket_spec() == old(self).socket_spec(),
            final(self).state() == (ViewerModel {
                tabs: seq![error_tab()],
                buffers: seq![seq![message@]],
                active: 0,
                ended: old(self).state().ended,
            }),
    {
        self.app.update_from_err(TuiErr::new(message));
    }
}

} // verus!
