//! The state of the terminal interface and how it answers key presses and other events.
use crate::tui::root::Area;
use vstd::prelude::*;

verus! {

/// The number of tabs.
pub const TAB_COUNT: usize = 3;

/// A key, as far as the interface tells keys apart.
#[derive(Debug, Clone, Copy, PartialEq, Eq, Structural)]
pub enum Key {
    Char(char),
    Esc,
    Tab,
    BackTab,
    Up,
    Down,
    /// Any other key.
    Other,
}

/// Whether a key went down, repeats or went up.
#[derive(Debug, Clone, Copy, PartialEq, Eq, Structural)]
pub enum KeyKind {
    Press,
    Repeat,
    Release,
}

/// A key event: the key, what happened to it, and whether shift was held.
#[derive(Debug, Clone, Copy, PartialEq, Eq, Structural)]
pub struct KeyInput {
    pub code: Key,
    pub kind: KeyKind,
    pub shift: bool,
}

/// An event of the terminal.
#[derive(Debug, Clone, Copy, PartialEq, Eq, Structural)]
pub enum AppEvent {
    Key(KeyInput),
    /// The terminal now has this width and height.
    Resize(u16, u16),
    /// Any other event.
    Other,
}

/// What the caller is asked to do after an event.
#[derive(Debug, Clone, Copy, PartialEq, Eq, Structural)]
pub enum AppAction {
    Nothing,
    /// Resize the terminal to this area.
    ResizeTerminal(Area),
}

/// The digit that a key stands for, if it is a digit key.
pub open spec fn key_number(key: Key) -> Option<i8> {
    match key {
        Key::Char(c) => if '0' <= c && c <= '9' {
            Some((c as u32 - '0' as u32) as i8)
        } else {
            None
        },
        _ => None,
    }
}

impl Key {
    /// The digit that the key stands for, if it is a digit key.
    pub fn to_number(self) -> (n: Option<i8>)
        ensures
            n == key_number(self),
    {
        match self {
            Key::Char('1') => Some(1),
            Key::Char('2') => Some(2),
            Key::Char('3') => Some(3),
            Key::Char('4') => Some(4),
            Key::Char('5') => Some(5),
            Key::Char('6') => Some(6),
            Key::Char('7') => Some(7),
            Key::Char('8') => Some(8),
            Key::Char('9') => Some(9),
            Key::Char('0') => Some(0),
            _ => None,
        }
    }
}

/// The selected tab, and the selected row in the list that the tab shows.
#[derive(Debug, Clone, Copy, PartialEq, Eq, Structural)]
pub struct AppContext {
    pub tab_index: usize,
    pub row_index: usize,
}

impl Default for AppContext {
    fn default() -> (context: Self)
        ensures
            context.tab_index == 0,
            context.row_index == 0,
    {
        AppContext { tab_index: 0, row_index: 0 }
    }
}

/// The tab after `tab`, going round.
pub open spec fn next_tab(tab: usize) -> usize {
    let following: int = if tab == usize::MAX {
        usize::MAX as int
    } else {
        tab + 1
    };
    (following % (TAB_COUNT as int)) as usize
}

/// The tab before `tab`, going round.
pub open spec fn previous_tab(tab: usize) -> usize {
    ((tab + TAB_COUNT - 1) % (TAB_COUNT as int)) as usize
}

/// The row above `row`; the first row stays.
pub open spec fn row_up(row: usize) -> usize {
    if row == 0 {
        0
    } else {
        (row - 1) as usize
    }
}

/// The row below `row`; the row at the limit stays.
pub open spec fn row_down(row: usize) -> usize {
    if row == usize::MAX {
        usize::MAX
    } else {
        (row + 1) as usize
    }
}

/// The context after a digit key: the keys 1 to 3 select their tab, counted from 1, and
/// go back to the first row; other keys leave the context as it is.
pub open spec fn context_after_number(context: AppContext, code: Key) -> AppContext {
    match key_number(code) {
        Some(n) => if 0 < n && n <= TAB_COUNT {
            AppContext { tab_index: (n - 1) as usize, row_index: 0 }
        } else {
            context
        },
        None => context,
    }
}

/// The key asks to leave the interface.
pub open spec fn is_quit_key(code: Key) -> bool {
    code == Key::Char('q') || code == Key::Esc
}

/// The key moves between tabs.
pub open spec fn is_tab_key(code: Key) -> bool {
    code == Key::Tab || code == Key::BackTab
}

/// The context after a key press.
pub open spec fn context_after_press(context: AppContext, key: KeyInput) -> AppContext {
    let c = context_after_number(context, key.code);
    if is_quit_key(key.code) {
        c
    } else if is_tab_key(key.code) && key.shift {
        AppContext { tab_index: previous_tab(c.tab_index), row_index: 0 }
    } else if is_tab_key(key.code) {
        AppContext { tab_index: next_tab(c.tab_index), row_index: 0 }
    } else if key.code == Key::Up || key.code == Key::Char('k') {
        AppContext { row_index: row_up(c.row_index), ..c }
    } else if key.code == Key::Down || key.code == Key::Char('j') {
        AppContext { row_index: row_down(c.row_index), ..c }
    } else {
        c
    }
}

/// The context after a key event: only presses count.
pub open spec fn context_after_key(context: AppContext, key: KeyInput) -> AppContext {
    if key.kind == KeyKind::Press {
        context_after_press(context, key)
    } else {
        context
    }
}

/// Whether the interface still runs after a key event: a press of a quit key stops it.
pub open spec fn running_after_key(running: bool, key: KeyInput) -> bool {
    if key.kind == KeyKind::Press && is_quit_key(key.code) {
        false
    } else {
        running
    }
}

/// The key event can be handled from this context: going to the previous tab counts
/// three tabs past the current one, which must fit in a `usize`.
pub open spec fn key_fits(context: AppContext, key: KeyInput) -> bool {
    key.kind == KeyKind::Press && is_tab_key(key.code) && key.shift ==> context_after_number(
        context,
        key.code,
    ).tab_index + TAB_COUNT <= usize::MAX
}

/// Whether the key event can be handled from this context (see `key_fits`).
pub fn key_fits_context(context: AppContext, key: KeyInput) -> (fits: bool)
    ensures
        fits == key_fits(context, key),
{
    if key.kind == KeyKind::Press && (key.code == Key::Tab || key.code == Key::BackTab) && key.shift {
        // a tab key is no digit, so the tab index stays as it is before the step back
        context.tab_index <= usize::MAX - TAB_COUNT
    } else {
        true
    }
}

/// The counter after an increment; it stays at its maximum.
pub open spec fn counter_incremented(counter: u8) -> u8 {
    if counter == u8::MAX {
        counter
    } else {
        (counter + 1) as u8
    }
}

/// The counter after a decrement; it stays at zero.
pub open spec fn counter_decremented(counter: u8) -> u8 {
    if counter == 0 {
        counter
    } else {
        (counter - 1) as u8
    }
}

/// Incrementing the counter and then decrementing it gives back the counter, below its
/// maximum; decrementing and then incrementing gives it back, above zero.
pub proof fn lemma_counter_round_trip(counter: u8)
    ensures
        counter < u8::MAX ==> counter_decremented(counter_incremented(counter)) == counter,
        counter > 0 ==> counter_incremented(counter_decremented(counter)) == counter,
{
}

/// Going to the next tab and back, or back and then to the next tab, returns to the tab
/// one started from; three steps forward go round to it too.
pub proof fn lemma_tab_round_trip(tab: usize)
    requires
        tab < TAB_COUNT,
    ensures
        previous_tab(next_tab(tab)) == tab,
        next_tab(previous_tab(tab)) == tab,
        next_tab(next_tab(next_tab(tab))) == tab,
{
}

/// Moving down a row and up again returns to the row, below the limit; moving up and down
/// again returns to it, past the first row.
pub proof fn lemma_row_round_trip(row: usize)
    ensures
        row < usize::MAX ==> row_up(row_down(row)) == row,
        row > 0 ==> row_down(row_up(row)) == row,
{
}

/// From a context on one of the tabs, every key event can be handled, and the selected tab
/// stays one of the tabs.
pub proof fn lemma_keys_keep_tab_in_range(context: AppContext, key: KeyInput)
    requires
        context.tab_index < TAB_COUNT,
    ensures
        key_fits(context, key),
        context_after_key(context, key).tab_index < TAB_COUNT,
{
}

/// A press of a key from 1 to 3 selects the tab of that number, counted from 1, and the
/// first row; a tab key goes to the first row.
pub proof fn lemma_number_keys_select_tab(context: AppContext, digit: char, shift: bool)
    requires
        '1' <= digit <= '3',
    ensures
        context_after_key(context, KeyInput { code: Key::Char(digit), kind: KeyKind::Press, shift })
            == (AppContext { tab_index: (digit as u32 - '1' as u32) as usize, row_index: 0 }),
{
}

/// Incrementing adds one to the counter below its maximum and keeps it at the maximum;
/// decrementing takes one away above zero and keeps it at zero.
pub proof fn lemma_counter_steps(counter: u8)
    ensures
        counter < 255 ==> counter_incremented(counter) == counter + 1,
        counter == 255 ==> counter_incremented(counter) == 255,
        counter > 0 ==> counter_decremented(counter) == counter - 1,
        counter == 0 ==> counter_decremented(counter) == 0,
{
}

/// A digit key stands for its digit, and no other key stands for a digit.
pub proof fn lemma_digit_keys(c: char)
    ensures
        '0' <= c <= '9' ==> key_number(Key::Char(c)) == Some((c as u32 - 48) as i8),
        !('0' <= c <= '9') ==> key_number(Key::Char(c)) is None,
        key_number(Key::Esc) is None && key_number(Key::Tab) is None && key_number(Key::BackTab) is None
            && key_number(Key::Up) is None && key_number(Key::Down) is None && key_number(Key::Other)
            is None,
{
}

/// The application.
#[derive(Debug)]
pub struct App {
    /// Is the application running?
    pub running: bool,
    pub counter: u8,
    pub context: AppContext,
}

/// The application after a key event: the context and the running flag follow the key, and
/// the counter stays.
pub open spec fn app_after_key(app: App, key: KeyInput) -> App {
    App {
        running: running_after_key(app.running, key),
        counter: app.counter,
        context: context_after_key(app.context, key),
    }
}

/// The application after an event, with what the caller is asked to do: a key event is
/// handled as a key, a resize asks for the terminal to take the new size at the origin, and
/// other events change nothing.
pub open spec fn app_after_event(app: App, event: AppEvent) -> (App, AppAction) {
    match event {
        AppEvent::Key(key) => (app_after_key(app, key), AppAction::Nothing),
        AppEvent::Resize(width, height) => (
            app,
            AppAction::ResizeTerminal(Area { x: 0, y: 0, width, height }),
        ),
        AppEvent::Other => (app, AppAction::Nothing),
    }
}

/// Handing a key event to the event handler ends in the same state as handing the key to
/// the key handler, and asks for nothing.
pub proof fn lemma_key_event_is_key_handling(app: App, key: KeyInput)
    requires
        key_fits(app.context, key),
    ensures
        app_after_event(app, AppEvent::Key(key)) == (app_after_key(app, key), AppAction::Nothing),
{
}

/// A press of the key, with shift held or not.
pub open spec fn press(code: Key, shift: bool) -> KeyInput {
    KeyInput { code, kind: KeyKind::Press, shift }
}

/// A press of Down or j moves the selection one row down on any tab, and stays on the last
/// row there is; Up or k moves it one row up and stays on the first. The tab, the running
/// flag and the counter stay.
pub proof fn lemma_row_keys(app: App, code: Key, shift: bool)
    ensures
        code == Key::Down || code == Key::Char('j') ==> {
            let after = app_after_key(app, press(code, shift));
            &&& after.context.tab_index == app.context.tab_index
            &&& app.context.row_index < usize::MAX ==> after.context.row_index == app.context.row_index + 1
            &&& app.context.row_index == usize::MAX ==> after.context.row_index == usize::MAX
            &&& after.running == app.running
            &&& after.counter == app.counter
        },
        code == Key::Up || code == Key::Char('k') ==> {
            let after = app_after_key(app, press(code, shift));
            &&& after.context.tab_index == app.context.tab_index
            &&& app.context.row_index > 0 ==> after.context.row_index == app.context.row_index - 1
            &&& app.context.row_index == 0 ==> after.context.row_index == 0
            &&& after.running == app.running
            &&& after.counter == app.counter
        },
{
}

/// A press of Tab or BackTab without shift goes to the next tab, from the last one to the
/// first, and to the first row; with shift it goes to the previous tab, from the first one to
/// the last. The running flag and the counter stay.
pub proof fn lemma_tab_keys(app: App, code: Key)
    requires
        code == Key::Tab || code == Key::BackTab,
        app.context.tab_index < 3,
    ensures
        app_after_key(app, press(code, false)).context.tab_index == (app.context.tab_index + 1) % 3,
        app_after_key(app, press(code, true)).context.tab_index == (app.context.tab_index + 2) % 3,
        app_after_key(app, press(code, false)).context.row_index == 0,
        app_after_key(app, press(code, true)).context.row_index == 0,
        app_after_key(app, press(code, false)).running == app.running,
        app_after_key(app, press(code, true)).running == app.running,
        app_after_key(app, press(code, false)).counter == app.counter,
        app_after_key(app, press(code, true)).counter == app.counter,
{
}

/// A press of q or Esc stops the application and changes nothing else.
pub proof fn lemma_quit_keys(app: App, code: Key, shift: bool)
    requires
        code == Key::Char('q') || code == Key::Esc,
    ensures
        !app_after_key(app, press(code, shift)).running,
        app_after_key(app, press(code, shift)).context == app.context,
        app_after_key(app, press(code, shift)).counter == app.counter,
{
}

/// A key that repeats or goes up changes nothing, and so does a press of a key that selects
/// no tab (digits other than 1 to 3 included), quits nothing and moves nothing.
pub proof fn lemma_keys_without_effect(app: App, key: KeyInput)
    requires
        key.kind != KeyKind::Press || key.code == Key::Other || (key.code matches Key::Char(c) && !(
        '1' <= c <= '3') && c != 'q' && c != 'j' && c != 'k'),
    ensures
        app_after_key(app, key) == app,
{
}

/// A resize event changes nothing in the application and asks for the terminal to take
/// exactly the new width and height at the origin; any other event that is no key asks for
/// nothing and changes nothing.
pub proof fn lemma_resize_event(app: App, width: u16, height: u16)
    ensures
        app_after_event(app, AppEvent::Resize(width, height)).0 == app,
        app_after_event(app, AppEvent::Resize(width, height)).1 matches AppAction::ResizeTerminal(a)
            && a.x == 0 && a.y == 0 && a.width == width && a.height == height,
        app_after_event(app, AppEvent::Other).0 == app,
        app_after_event(app, AppEvent::Other).1 == AppAction::Nothing,
{
}

impl Default for App {
    fn default() -> (app: Self)
        ensures
            app.running,
            app.counter == 0,
            app.context == (AppContext { tab_index: 0, row_index: 0 }),
    {
        App { running: true, counter: 0, context: AppContext { tab_index: 0, row_index: 0 } }
    }
}

impl App {
    /// A running application on the first tab and the first row.
    pub fn new() -> (app: Self)
        ensures
            app.running,
            app.counter == 0,
            app.context == (AppContext { tab_index: 0, row_index: 0 }),
    {
        Self::default()
    }

    /// Handles a tick of the terminal: nothing changes.
    pub fn tick(&self) {
    }

    /// Stops the application.
    pub fn quit(&mut self)
        ensures
            !final(self).running,
            final(self).counter == old(self).counter,
            final(self).context == old(self).context,
    {
        self.running = false;
    }

    pub fn increment_counter(&mut self)
        ensures
            final(self).counter == counter_incremented(old(self).counter),
            final(self).running == old(self).running,
            final(self).context == old(self).context,
    {
        if let Some(res) = self.counter.checked_add(1) {
            self.counter = res;
        }
    }

    pub fn decrement_counter(&mut self)
        ensures
            final(self).counter == counter_decremented(old(self).counter),
            final(self).running == old(self).running,
            final(self).context == old(self).context,
    {
        if let Some(res) = self.counter.checked_sub(1) {
            self.counter = res;
        }
    }

    /// Handles an event of the terminal. A key event goes to `handle_key_event`; a resize
    /// asks the caller to resize the terminal to the new size; other events change nothing.
    pub fn handle_events(&mut self, event: AppEvent) -> (action: AppAction)
        requires
            event matches AppEvent::Key(key) ==> key_fits(old(self).context, key),
        ensures
            (*final(self), action) == app_after_event(*old(self), event),
    {
        match event {
            AppEvent::Key(key) => {
                self.handle_key_event(key);
                AppAction::Nothing
            },
            AppEvent::Resize(width, height) => AppAction::ResizeTerminal(
                Area { x: 0, y: 0, width, height },
            ),
            AppEvent::Other => AppAction::Nothing,
        }
    }

    /// Handles a key event. Only presses count: a digit from 1 to 3 selects that tab, q or
    /// Esc stops the application, Tab and BackTab go to the next tab (to the previous one
    /// with shift), Up or k and Down or j move the selected row.
    pub fn handle_key_event(&mut self, key: KeyInput)
        requires
            key_fits(old(self).context, key),
        ensures
            *final(self) == app_after_key(*old(self), key),
    {
        if key.kind != KeyKind::Press {
            return ;
        }
        if let Some(num) = key.code.to_number() {
            if num > 0 && num <= 3 {
                self.context.tab_index = (num - 1) as usize;
                self.context.row_index = 0;
            }
        }
        match key.code {
            Key::Char('q') | Key::Esc => {
                self.running = false;
            },
            Key::Tab | Key::BackTab => {
                if key.shift {
                    // counting past the current tab makes the step back go round
                    let tab_index = self.context.tab_index + TAB_COUNT;
                    self.context.tab_index = tab_index.saturating_sub(1) % TAB_COUNT;
                } else {
                    self.context.tab_index = self.context.tab_index.saturating_add(1) % TAB_COUNT;
                }
                self.context.row_index = 0;
            },
            Key::Up | Key::Char('k') => {
                self.context.row_index = self.context.row_index.saturating_sub(1);
            },
            Key::Down | Key::Char('j') => {
                self.context.row_index = self.context.row_index.saturating_add(1);
            },
            _ => {},
        }
    }
}

} // verus!
