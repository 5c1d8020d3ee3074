//! The state of a viewing session, what each event does to it, and what it
//! shows.

use crate::document::{split_text, Document, DocumentView};
use crate::event::{Event, Key, Pointer};
use crate::render::{Area, PaneSpec, PaneView, RenderPlan, RenderPlanView, Screen};
use crate::scroll::{down, scrolled_down, scrolled_up, up};
use vstd::prelude::*;

verus! {

/// Share of the width that the left side has at the start, in percent.
pub const DEFAULT_SPACE: u16 = 40;

/// How far one key press moves the border between the sides, in percent.
pub const SPACE_STEP: u16 = 5;

/// The whole width, in percent.
pub const FULL_WIDTH: u16 = 100;

/// Lines that one key press scrolls.
pub const KEY_SCROLL: u16 = 1;

/// Lines that one notch of the wheel scrolls.
pub const POINTER_SCROLL: u16 = 5;

/// A session as contracts see it.
pub struct ProgramView {
    pub document: DocumentView,
    pub scroll_offset: nat,
    pub hidden: bool,
    pub reverse: bool,
    pub space_ratio: nat,
    pub should_exit: bool,
}

impl ProgramView {
    /// The session at its start, on the text `src`.
    pub open spec fn initial(src: Seq<char>) -> ProgramView {
        ProgramView {
            document: split_text(src),
            scroll_offset: 0,
            hidden: false,
            reverse: false,
            space_ratio: DEFAULT_SPACE as nat,
            should_exit: false,
        }
    }

    /// What holds of every session: the left side has a share of the width,
    /// and the document is the split of some text.
    pub open spec fn wf(self) -> bool {
        &&& self.space_ratio <= FULL_WIDTH
        &&& self.document.is_split()
    }

    /// The session with the text `src` in place of its document.
    pub open spec fn reload(self, src: Seq<char>) -> ProgramView {
        ProgramView { document: split_text(src), ..self }
    }

    /// The session scrolled up by `amount` lines.
    pub open spec fn scroll_up(self, amount: nat) -> ProgramView {
        ProgramView { scroll_offset: up(self.scroll_offset, amount), ..self }
    }

    /// The session scrolled down by `amount` lines.
    pub open spec fn scroll_down(self, amount: nat) -> ProgramView {
        ProgramView {
            scroll_offset: down(self.scroll_offset, self.document.line_count, amount),
            ..self
        }
    }

    /// One side hidden where both were shown, and both shown where one was
    /// hidden.
    pub open spec fn toggle_hidden(self) -> ProgramView {
        ProgramView { hidden: !self.hidden, ..self }
    }

    /// The sides swapped.
    pub open spec fn toggle_reverse(self) -> ProgramView {
        ProgramView { reverse: !self.reverse, ..self }
    }

    /// The border moved one step to the left; it stops at the left edge.
    pub open spec fn narrow(self) -> ProgramView {
        ProgramView {
            space_ratio: if self.space_ratio >= SPACE_STEP {
                (self.space_ratio - SPACE_STEP) as nat
            } else {
                0
            },
            ..self
        }
    }

    /// The border moved one step to the right; it stops at the right edge.
    pub open spec fn widen(self) -> ProgramView {
        ProgramView {
            space_ratio: if self.space_ratio + SPACE_STEP <= FULL_WIDTH {
                self.space_ratio + SPACE_STEP as nat
            } else {
                FULL_WIDTH as nat
            },
            ..self
        }
    }

    /// The session asked to end.
    pub open spec fn exit(self) -> ProgramView {
        ProgramView { should_exit: true, ..self }
    }

    /// The session after the key `key`.
    pub open spec fn key_input(self, key: Key) -> ProgramView {
        match key {
            Key::Char(c) => {
                if c == ' ' {
                    self.toggle_hidden()
                } else if c == 'k' {
                    self.scroll_up(KEY_SCROLL as nat)
                } else if c == 'j' {
                    self.scroll_down(KEY_SCROLL as nat)
                } else if c == 'l' {
                    self.widen()
                } else if c == 'h' {
                    self.narrow()
                } else if c == 'r' {
                    self.toggle_reverse()
                } else {
                    self
                }
            },
            Key::Up => self.scroll_up(KEY_SCROLL as nat),
            Key::Down => self.scroll_down(KEY_SCROLL as nat),
            Key::Right => self.widen(),
            Key::Left => self.narrow(),
            Key::Esc => self.exit(),
            Key::Other => self,
        }
    }

    /// The session after the pointer did `pointer`.
    pub open spec fn mouse_input(self, pointer: Pointer) -> ProgramView {
        match pointer {
            Pointer::ScrollUp => self.scroll_up(POINTER_SCROLL as nat),
            Pointer::ScrollDown => self.scroll_down(POINTER_SCROLL as nat),
            Pointer::Other => self,
        }
    }

    /// The session after the event `event`.
    pub open spec fn handle_event(self, event: Event) -> ProgramView {
        match event {
            Event::KeyPress(key) => self.key_input(key),
            Event::PointerScroll(pointer) => self.mouse_input(pointer),
            Event::Other => self,
        }
    }

    /// The session after a run on the events `events`: they are handled in
    /// order until the session is asked to end; what comes after is left.
    pub open spec fn run(self, events: Seq<Event>) -> ProgramView
        decreases events.len(),
    {
        if self.should_exit || events.len() == 0 {
            self
        } else {
            self.handle_event(events[0]).run(events.drop_first())
        }
    }

    /// Number of events that a run on `events` handles.
    pub open spec fn handled(self, events: Seq<Event>) -> nat
        decreases events.len(),
    {
        if self.should_exit || events.len() == 0 {
            0
        } else {
            1 + self.handle_event(events[0]).handled(events.drop_first())
        }
    }

    /// The text on the left: the prompt side, or the detail side where the
    /// sides are swapped.
    pub open spec fn left_text(self) -> Seq<char> {
        if self.reverse {
            self.document.detail_text
        } else {
            self.document.prompt_text
        }
    }

    /// The text on the right: the detail side, or the prompt side where the
    /// sides are swapped.
    pub open spec fn right_text(self) -> Seq<char> {
        if self.reverse {
            self.document.prompt_text
        } else {
            self.document.detail_text
        }
    }

    /// The left pane is drawn: it is left out where a side is hidden and the
    /// sides are swapped.
    pub open spec fn shows_left(self) -> bool {
        !(self.hidden && self.reverse)
    }

    /// The right pane is drawn: it is left out where a side is hidden and the
    /// sides are not swapped.
    pub open spec fn shows_right(self) -> bool {
        !(self.hidden && !self.reverse)
    }

    /// What the session shows.
    pub open spec fn render_plan(self) -> RenderPlanView {
        RenderPlanView {
            left_pane: if self.shows_left() {
                Some(PaneView { text: self.left_text(), scroll_offset: self.scroll_offset })
            } else {
                None
            },
            right_pane: if self.shows_right() {
                Some(PaneView { text: self.right_text(), scroll_offset: self.scroll_offset })
            } else {
                None
            },
            left_width_pct: self.space_ratio,
            right_width_pct: (FULL_WIDTH - self.space_ratio) as nat,
        }
    }
}

/// A viewing session: the document, how far it is scrolled, which side is
/// hidden, and where the border between the sides stands.
pub struct Program {
    document: Document,
    scroll_offset: u16,
    hidden: bool,
    reverse: bool,
    space_ratio: u16,
    should_exit: bool,
}

impl View for Program {
    type V = ProgramView;

    closed spec fn view(&self) -> ProgramView {
        ProgramView {
            document: self.document@,
            scroll_offset: self.scroll_offset as nat,
            hidden: self.hidden,
            reverse: self.reverse,
            space_ratio: self.space_ratio as nat,
            should_exit: self.should_exit,
        }
    }
}

impl Program {
    #[verifier::type_invariant]
    spec fn well_formed(self) -> bool {
        self.space_ratio <= FULL_WIDTH
    }

    /// A session on the text `content`, at its first line, with both sides
    /// shown.
    pub fn new(content: &str) -> (program: Program)
        ensures
            program@ == ProgramView::initial(content@),
    {
        Program {
            document: Document::split(content),
            scroll_offset: 0,
            hidden: false,
            reverse: false,
            space_ratio: DEFAULT_SPACE,
            should_exit: false,
        }
    }

    /// Takes the text `content` in place of the document. The rest of the
    /// session stays as it is.
    pub fn reload(&mut self, content: &str)
        ensures
            final(self)@ == old(self)@.reload(content@),
    {
        proof {
            use_type_invariant(&*self);
        }
        self.document = Document::split(content);
    }

    /// Scrolls both sides up by `amount` lines.
    pub fn scroll_up(&mut self, amount: u16)
        ensures
            final(self)@ == old(self)@.scroll_up(amount as nat),
    {
        proof {
            use_type_invariant(&*self);
        }
        self.scroll_offset = scrolled_up(self.scroll_offset, amount);
    }

    /// Scrolls both sides down by `amount` lines.
    pub fn scroll_down(&mut self, amount: u16)
        ensures
            final(self)@ == old(self)@.scroll_down(amount as nat),
    {
        proof {
            use_type_invariant(&*self);
        }
        self.scroll_offset = scrolled_down(self.scroll_offset, self.document.line_count(), amount);
    }

    /// Moves the border one step to the left.
    fn narrow(&mut self)
        ensures
            final(self)@ == old(self)@.narrow(),
    {
        proof {
            use_type_invariant(&*self);
        }
        if self.space_ratio >= SPACE_STEP {
            self.space_ratio = self.space_ratio - SPACE_STEP;
        } else {
            self.space_ratio = 0;
        }
    }

    /// Moves the border one step to the right.
    fn widen(&mut self)
        ensures
            final(self)@ == old(self)@.widen(),
    {
        proof {
            use_type_invariant(&*self);
        }
        if self.space_ratio + SPACE_STEP <= FULL_WIDTH {
            self.space_ratio = self.space_ratio + SPACE_STEP;
        } else {
            self.space_ratio = FULL_WIDTH;
        }
    }

    /// Does what the key `key` stands for.
    pub fn key_input(&mut self, key: Key)
        ensures
            final(self)@ == old(self)@.key_input(key),
    {
        proof {
            use_type_invariant(&*self);
        }
        match key {
            Key::Char(c) => {
                if c == ' ' {
                    self.hidden = !self.hidden;
                } else if c == 'k' {
                    self.scroll_up(KEY_SCROLL);
                } else if c == 'j' {
                    self.scroll_down(KEY_SCROLL);
                } else if c == 'l' {
                    self.widen();
                } else if c == 'h' {
                    self.narrow();
                } else if c == 'r' {
                    self.reverse = !self.reverse;
                }
            },
            Key::Up => self.scroll_up(KEY_SCROLL),
            Key::Down => self.scroll_down(KEY_SCROLL),
            Key::Right => self.widen(),
            Key::Left => self.narrow(),
            Key::Esc => {
                self.should_exit = true;
            },
            Key::Other => {},
        }
    }

    /// Does what the pointer asks for.
    pub fn mouse_input(&mut self, pointer: Pointer)
        ensures
            final(self)@ == old(self)@.mouse_input(pointer),
    {
        match pointer {
            Pointer::ScrollUp => self.scroll_up(POINTER_SCROLL),
            Pointer::ScrollDown => self.scroll_down(POINTER_SCROLL),
            Pointer::Other => {},
        }
    }

    /// Hands the event to the key or the pointer part; other events change
    /// nothing.
    pub fn handle_event(&mut self, event: Event)
        ensures
            final(self)@ == old(self)@.handle_event(event),
    {
        match event {
            Event::KeyPress(key) => self.key_input(key),
            Event::PointerScroll(pointer) => self.mouse_input(pointer),
            Event::Other => {},
        }
    }

    /// Runs the session on recorded events: each is handled in turn until
    /// the session is asked to end. Gives the number of events handled.
    pub fn run(&mut self, events: &[Event]) -> (count: usize)
        ensures
            final(self)@ == old(self)@.run(events@),
            count == old(self)@.handled(events@),
            count <= events@.len(),
    {
        let mut count: usize = 0;
        assert(events@.skip(0) =~= events@);
        while count < events.len() && !self.should_exit
            invariant
                count <= events@.len(),
                old(self)@.run(events@) == self@.run(events@.skip(count as int)),
                old(self)@.handled(events@) == count + self@.handled(events@.skip(count as int)),
            decreases events@.len() - count,
        {
            let ghost rest = events@.skip(count as int);
            assert(rest.drop_first() =~= events@.skip(count + 1));
            self.handle_event(events[count]);
            count = count + 1;
        }
        count
    }

    /// What to draw for the session as it stands.
    pub fn render_plan(&self) -> (plan: RenderPlan<'_>)
        ensures
            plan@ == self@.render_plan(),
            self@.wf(),
    {
        proof {
            use_type_invariant(self);
            use_type_invariant(&self.document);
        }
        let scroll_offset = self.scroll_offset;
        let prompt = PaneSpec { text: self.document.prompt_text(), scroll_offset };
        let detail = PaneSpec { text: self.document.detail_text(), scroll_offset };
        let (left, right) = if self.reverse {
            (detail, prompt)
        } else {
            (prompt, detail)
        };
        RenderPlan {
            left_pane: if self.hidden && self.reverse {
                None
            } else {
                Some(left)
            },
            right_pane: if self.hidden && !self.reverse {
                None
            } else {
                Some(right)
            },
            left_width_pct: self.space_ratio,
            right_width_pct: FULL_WIDTH - self.space_ratio,
        }
    }

    /// The panes of one frame on the cells `area`, each in its column.
    pub fn draw(&self, area: Area) -> (screen: Screen<'_>)
        requires
            self@.render_plan().can_split(area),
        ensures
            exists|chunks: Seq<Area>|
                chunks.len() == 2 && screen@ == #[trigger] self@.render_plan().place(chunks),
    {
        self.render_plan().layout(area)
    }

    /// The document on show.
    pub fn document(&self) -> (document: &Document)
        ensures
            document@ == self@.document,
    {
        &self.document
    }

    /// Number of lines of the document.
    pub fn line_count(&self) -> (n: u16)
        ensures
            n == self@.document.line_count,
    {
        self.document.line_count()
    }

    /// The line at the top of both panes.
    pub fn scroll_offset(&self) -> (offset: u16)
        ensures
            offset == self@.scroll_offset,
    {
        self.scroll_offset
    }

    /// Whether one side is hidden.
    pub fn hidden(&self) -> (hidden: bool)
        ensures
            hidden == self@.hidden,
    {
        self.hidden
    }

    /// Whether the sides are swapped.
    pub fn reverse(&self) -> (reverse: bool)
        ensures
            reverse == self@.reverse,
    {
        self.reverse
    }

    /// Share of the width that the left side has, in percent.
    pub fn space_ratio(&self) -> (ratio: u16)
        ensures
            ratio == self@.space_ratio,
            self@.wf(),
    {
        proof {
            use_type_invariant(self);
            use_type_invariant(&self.document);
        }
        self.space_ratio
    }

    /// Whether the session was asked to end.
    pub fn should_exit(&self) -> (exit: bool)
        ensures
            exit == self@.should_exit,
    {
        self.should_exit
    }
}

/// The key that hides a side and shows it again.
pub open spec fn hide_key() -> Key {
    Key::Char(' ')
}

/// The key that swaps the sides.
pub open spec fn reverse_key() -> Key {
    Key::Char('r')
}

/// Hiding twice, or swapping twice, gives the session back as it was, and
/// with it what it shows.
pub proof fn lemma_toggle_twice(v: ProgramView)
    ensures
        v.key_input(hide_key()).key_input(hide_key()) == v,
        v.key_input(reverse_key()).key_input(reverse_key()) == v,
        v.key_input(hide_key()).key_input(hide_key()).render_plan() == v.render_plan(),
        v.key_input(reverse_key()).key_input(reverse_key()).render_plan() == v.render_plan(),
{
}

/// What is shown: with nothing hidden both panes, each with its text and the
/// common offset; with a side hidden exactly one pane. Swapping the sides
/// swaps the texts, and while a side is hidden it moves the pane that is
/// left out to the other side. The two shares make up the whole width.
pub proof fn lemma_render_plan_rules(v: ProgramView)
    requires
        v.wf(),
    ensures
        !v.hidden ==> v.render_plan().left_pane is Some && v.render_plan().right_pane is Some,
        v.hidden ==> (v.render_plan().left_pane is Some) != (v.render_plan().right_pane is Some),
        v.hidden ==> (v.render_plan().left_pane is Some)
            != (v.toggle_reverse().render_plan().left_pane is Some),
        v.toggle_reverse().left_text() == v.right_text(),
        v.toggle_reverse().right_text() == v.left_text(),
        v.toggle_hidden().left_text() == v.left_text(),
        v.toggle_hidden().right_text() == v.right_text(),
        v.render_plan().left_pane matches Some(pane) ==> pane.text == v.left_text()
            && pane.scroll_offset == v.scroll_offset,
        v.render_plan().right_pane matches Some(pane) ==> pane.text == v.right_text()
            && pane.scroll_offset == v.scroll_offset,
        v.render_plan().left_width_pct + v.render_plan().right_width_pct == FULL_WIDTH,
{
}

/// No event moves the border off the screen, and none takes the document
/// away.
pub proof fn lemma_event_keeps_wf(v: ProgramView, event: Event)
    requires
        v.wf(),
    ensures
        v.handle_event(event).wf(),
{
}

/// After any run of events the left side still has between nothing and all
/// of the width.
pub proof fn lemma_run_keeps_wf(v: ProgramView, events: Seq<Event>)
    requires
        v.wf(),
    ensures
        v.run(events).wf(),
        v.run(events).space_ratio <= FULL_WIDTH,
    decreases events.len(),
{
    if !v.should_exit && events.len() > 0 {
        lemma_event_keeps_wf(v, events[0]);
        lemma_run_keeps_wf(v.handle_event(events[0]), events.drop_first());
    }
}

/// A session is asked to end by the escape key and by nothing else, and no
/// event takes the request back.
pub proof fn lemma_exit_is_kept(v: ProgramView, event: Event)
    ensures
        v.handle_event(event).should_exit <==> v.should_exit || event == Event::KeyPress(Key::Esc),
{
}

/// A session that was asked to end handles no further event.
pub proof fn lemma_exit_ends_run(v: ProgramView, events: Seq<Event>)
    requires
        v.should_exit,
    ensures
        v.run(events) == v,
        v.handled(events) == 0,
{
}

/// A run stops behind the first escape key: of the events `before`, then
/// the escape key, then the events `later`, it handles `before` and the
/// key, and nothing of `later`.
pub proof fn lemma_run_stops_at_escape(v: ProgramView, before: Seq<Event>, later: Seq<Event>)
    requires
        !v.run(before).should_exit,
    ensures
        v.run(before.push(Event::KeyPress(Key::Esc)) + later) == v.run(before).exit(),
        v.handled(before.push(Event::KeyPress(Key::Esc)) + later) == before.len() + 1,
    decreases before.len(),
{
    let escape = Event::KeyPress(Key::Esc);
    let all = before.push(escape) + later;
    if before.len() == 0 {
        assert(all.drop_first() =~= later);
        lemma_exit_ends_run(v.handle_event(escape), later);
    } else {
        let next = v.handle_event(before[0]);
        assert(all.drop_first() =~= before.drop_first().push(escape) + later);
        lemma_run_stops_at_escape(next, before.drop_first(), later);
    }
}

} // verus!
