//! What a client has on screen: its tabs, the texts in them, and the input
//! that is being typed.

pub mod telnet_backend;
pub mod termion;

use crate::channel::copy_messages;
use crate::channel::keep_recent;
use crate::channel::message_texts;
use crate::channel::Message;
use crate::text::str_eq;
use crate::ui::telnet_backend::Rect;
use vstd::prelude::*;
use vstd::string::*;

verus! {

/// How many messages a channel tab shows at most.
pub const DISPLAY_LIMIT: usize = 100;

/// How many of the oldest messages leave a tab at once when the limit is
/// passed.
pub const DISPLAY_TRIM: usize = 50;

/// What a tab shows.
#[derive(Clone, Debug, PartialEq)]
pub enum TabType {
    /// A text: the welcome, the help, the list of channels.
    Info(String),
    /// The messages of a channel, oldest first.
    Channel(Vec<(String, String, String)>),
}

/// What a tab shows, as texts.
pub enum TabContent {
    Info(Seq<char>),
    Channel(Seq<Message>),
}

impl View for TabType {
    type V = TabContent;

    open spec fn view(&self) -> TabContent {
        match self {
            TabType::Info(text) => TabContent::Info(text@),
            TabType::Channel(messages) => TabContent::Channel(message_texts(messages@)),
        }
    }
}

impl TabType {
    /// A copy of the content.
    pub fn copy(&self) -> (r: TabType)
        ensures
            r@ == self@,
    {
        match self {
            TabType::Info(text) => TabType::Info(text.clone()),
            TabType::Channel(messages) => TabType::Channel(copy_messages(messages)),
        }
    }
}

/// A tab, as texts.
pub struct TabView {
    pub name: Seq<char>,
    pub content: TabContent,
    pub input: Seq<char>,
}

impl TabView {
    /// Whether the tab shows a channel.
    pub open spec fn is_channel(self) -> bool {
        self.content is Channel
    }

    /// The tab after the input was taken out of it.
    pub open spec fn cleared(self) -> TabView {
        TabView { input: Seq::empty(), ..self }
    }

    /// The tab after `ch` was typed.
    pub open spec fn typed(self, ch: char) -> TabView {
        TabView { input: self.input.push(ch), ..self }
    }

    /// The tab after the last character of the input was deleted, if there
    /// was one.
    pub open spec fn erased(self) -> TabView {
        if self.input.len() > 0 {
            TabView { input: self.input.drop_last(), ..self }
        } else {
            self
        }
    }

    /// The tab after `message` came in: a channel tab shows it last, without
    /// its fifty oldest messages once it has more than a hundred.
    pub open spec fn received(self, message: Message) -> TabView {
        match self.content {
            TabContent::Channel(messages) => TabView {
                content: TabContent::Channel(
                    keep_recent(messages.push(message), DISPLAY_LIMIT as nat, DISPLAY_TRIM as nat),
                ),
                ..self
            },
            TabContent::Info(_) => self,
        }
    }
}

/// One tab: a name, what it shows, and the input typed into it so far.
#[derive(Clone)]
pub struct Tab {
    name: String,
    tab_type: TabType,
    input: String,
}

impl View for Tab {
    type V = TabView;

    closed spec fn view(&self) -> TabView {
        TabView { name: self.name@, content: self.tab_type@, input: self.input@ }
    }
}

impl Tab {
    /// A tab without input.
    pub fn new(name: String, tab_type: TabType) -> (tab: Self)
        ensures
            tab@ == (TabView { name: name@, content: tab_type@, input: Seq::empty() }),
    {
        Self { name, tab_type, input: String::new() }
    }

    /// A copy of the tab.
    pub fn copy(&self) -> (tab: Self)
        ensures
            tab@ == self@,
    {
        Self { name: self.name.clone(), tab_type: self.tab_type.copy(), input: self.input.clone() }
    }

    /// A copy of what the tab shows.
    pub fn get_type(&self) -> (r: TabType)
        ensures
            r@ == self@.content,
    {
        self.tab_type.copy()
    }

    /// The tab's name.
    pub fn get_name(&self) -> (r: String)
        ensures
            r@ == self@.name,
    {
        self.name.clone()
    }

    /// What was typed into the tab and not yet submitted.
    pub fn get_input(&self) -> (r: String)
        ensures
            r@ == self@.input,
    {
        self.input.clone()
    }

    /// Whether the tab shows a channel.
    pub fn is_channel(&self) -> (r: bool)
        ensures
            r == self@.is_channel(),
    {
        match &self.tab_type {
            TabType::Channel(_) => true,
            TabType::Info(_) => false,
        }
    }

    /// Takes the input out of the tab.
    pub fn clear(&mut self) -> (input: String)
        ensures
            input@ == old(self)@.input,
            final(self)@ == old(self)@.cleared(),
    {
        let mut input = String::new();
        std::mem::swap(&mut input, &mut self.input);
        input
    }

    /// Deletes the last character of the input, if there is one.
    pub fn input_del_char(&mut self)
        ensures
            final(self)@ == old(self)@.erased(),
    {
        self.input.pop();
    }

    /// Adds `ch` to the input.
    pub fn input_add_char(&mut self, ch: char)
        ensures
            final(self)@ == old(self)@.typed(ch),
    {
        self.input.push(ch);
    }

    /// What is to be sent when `message` is submitted in this tab: for a
    /// channel tab the channel's name, the time stamp, the author and the
    /// message; nothing for a tab that shows no channel.
    pub fn message(&self, timestamp: String, user: String, message: String) -> (r: Option<
        (String, String, String, String),
    >)
        ensures
            match r {
                Some(sent) => self@.is_channel() && sent.0@ == self@.name && sent.1@ == timestamp@
                    && sent.2@ == user@ && sent.3@ == message@,
                None => !self@.is_channel(),
            },
    {
        if self.is_channel() {
            Some((self.name.clone(), timestamp, user, message))
        } else {
            None
        }
    }

    /// Shows a message that came in, if this is a channel tab.
    pub fn receive(&mut self, timestamp: String, user: String, message: String)
        ensures
            final(self)@ == old(self)@.received((timestamp@, user@, message@)),
    {
        match &mut self.tab_type {
            TabType::Channel(content) => {
                let ghost before = content@;
                content.push((timestamp, user, message));
                assert(message_texts(content@) =~= message_texts(before).push(
                    (timestamp@, user@, message@),
                ));
                if content.len() > DISPLAY_LIMIT {
                    let ghost grown = content@;
                    let recent = content.split_off(DISPLAY_TRIM);
                    *content = recent;
                    assert(message_texts(content@) =~= message_texts(grown).skip(
                        DISPLAY_TRIM as int,
                    ));
                }
            },
            TabType::Info(_) => {},
        }
    }

    /// The channel that is to be left when this tab is closed, if it shows
    /// one.
    pub fn drop(&self) -> (r: Option<String>)
        ensures
            match r {
                Some(channel) => self@.is_channel() && channel@ == self@.name,
                None => !self@.is_channel(),
            },
    {
        if self.is_channel() {
            Some(self.name.clone())
        } else {
            None
        }
    }
}

/// Where the first tab named `name` stands in `tabs`; their number if there
/// is none.
pub open spec fn position_of(tabs: Seq<TabView>, name: Seq<char>) -> nat
    decreases tabs.len(),
{
    if tabs.len() == 0 || tabs[0].name == name {
        0
    } else {
        1 + position_of(tabs.drop_first(), name)
    }
}

/// A place before which no tab has the name, and which has it or is the end,
/// is `position_of`.
pub proof fn lemma_position_is(tabs: Seq<TabView>, name: Seq<char>, at: nat)
    requires
        at <= tabs.len(),
        forall|i: int| 0 <= i < at ==> (#[trigger] tabs[i]).name != name,
        at < tabs.len() ==> tabs[at as int].name == name,
    ensures
        position_of(tabs, name) == at,
    decreases tabs.len(),
{
    if at > 0 {
        let rest = tabs.drop_first();
        assert(tabs[0].name != name);
        assert forall|i: int| 0 <= i < at - 1 implies (#[trigger] rest[i]).name != name by {
            assert(rest[i] == tabs[i + 1]);
        }
        lemma_position_is(rest, name, (at - 1) as nat);
    }
}

/// The tabs of a client, as texts, and which of them is selected.
pub struct UiTabsView {
    pub tabs: Seq<TabView>,
    pub selected: nat,
}

impl UiTabsView {
    /// There is a tab, and one of them is selected.
    pub open spec fn wf(self) -> bool {
        self.selected < self.tabs.len()
    }

    /// The selected tab.
    pub open spec fn current(self) -> TabView {
        self.tabs[self.selected as int]
    }

    /// The tabs with `tab` in place of the selected one.
    pub open spec fn with_current(self, tab: TabView) -> UiTabsView {
        UiTabsView { tabs: self.tabs.update(self.selected as int, tab), ..self }
    }

    /// `tab` is opened last and selected.
    pub open spec fn add(self, tab: TabView) -> UiTabsView {
        UiTabsView { tabs: self.tabs.push(tab), selected: self.tabs.len() }
    }

    /// `tab` takes the place of the first tab of its name, or is opened last
    /// if there is none; either way it is selected.
    pub open spec fn add_or_switch(self, tab: TabView) -> UiTabsView {
        let at = position_of(self.tabs, tab.name);
        if at < self.tabs.len() {
            UiTabsView { tabs: self.tabs.update(at as int, tab), selected: at }
        } else {
            self.add(tab)
        }
    }

    /// The selected tab is closed and the one before it selected; the first
    /// tab is never closed.
    pub open spec fn drop(self) -> UiTabsView {
        if self.selected == 0 {
            self
        } else {
            UiTabsView {
                tabs: self.tabs.remove(self.selected as int),
                selected: (self.selected - 1) as nat,
            }
        }
    }

    /// The next tab is selected, the first one after the last.
    pub open spec fn next(self) -> UiTabsView {
        UiTabsView {
            selected: if self.selected + 1 < self.tabs.len() {
                self.selected + 1
            } else {
                0
            },
            ..self
        }
    }

    /// `message` came in for `channel`: the first tab of that name shows it,
    /// if there is one.
    pub open spec fn add_message(self, channel: Seq<char>, message: Message) -> UiTabsView {
        let at = position_of(self.tabs, channel);
        if at < self.tabs.len() {
            UiTabsView { tabs: self.tabs.update(at as int, self.tabs[at as int].received(message)), ..self }
        } else {
            self
        }
    }

    /// The names of the tabs, in their order.
    pub open spec fn names(self) -> Seq<Seq<char>> {
        Seq::new(self.tabs.len(), |i: int| self.tabs[i].name)
    }
}

/// The tabs of a client. There is always at least one, and one is selected.
/// There is one record of them per client, which is lent to whoever draws
/// them.
pub struct UiTabs {
    tabs: Vec<Tab>,
    selected: usize,
}

impl View for UiTabs {
    type V = UiTabsView;

    closed spec fn view(&self) -> UiTabsView {
        UiTabsView {
            tabs: Seq::new(self.tabs@.len(), |i: int| self.tabs@[i]@),
            selected: self.selected as nat,
        }
    }
}

impl UiTabs {
    pub open spec fn wf(&self) -> bool {
        self@.wf()
    }

    /// Tabs with `tab` as the first and only one.
    pub fn new(tab: Tab) -> (tabs: Self)
        ensures
            tabs.wf(),
            tabs@ == (UiTabsView { tabs: seq![tab@], selected: 0 }),
    {
        let mut list: Vec<Tab> = Vec::new();
        list.push(tab);
        let tabs = Self { tabs: list, selected: 0 };
        assert(tabs@.tabs =~= seq![tab@]);
        tabs
    }

    /// How many tabs are open.
    pub fn len(&self) -> (n: usize)
        ensures
            n == self@.tabs.len(),
    {
        self.tabs.len()
    }

    /// Which tab is selected, counted from zero.
    pub fn selected(&self) -> (i: usize)
        ensures
            i == self@.selected,
    {
        self.selected
    }

    /// Where the first tab named `name` stands, if there is one.
    fn find(&self, name: &str) -> (at: usize)
        ensures
            at == position_of(self@.tabs, name@),
            at <= self@.tabs.len(),
    {
        let mut i: usize = 0;
        while i < self.tabs.len()
            invariant
                i <= self.tabs@.len(),
                forall|j: int| 0 <= j < i ==> (#[trigger] self@.tabs[j]).name != name@,
            decreases self.tabs@.len() - i,
        {
            assert(self@.tabs[i as int] == self.tabs@[i as int]@);
            if str_eq(self.tabs[i].name.as_str(), name) {
                proof {
                    lemma_position_is(self@.tabs, name@, i as nat);
                }
                return i;
            }
            i = i + 1;
        }
        proof {
            lemma_position_is(self@.tabs, name@, i as nat);
        }
        i
    }

    /// Opens `tab` last and selects it.
    pub fn add(&mut self, tab: Tab)
        requires
            old(self).wf(),
        ensures
            final(self).wf(),
            final(self)@ == old(self)@.add(tab@),
    {
        self.tabs.push(tab);
        self.selected = self.tabs.len() - 1;
        assert(self@.tabs =~= old(self)@.tabs.push(tab@));
    }

    /// Puts `tab` in the place of the first tab of its name and selects it;
    /// opens it last if there is no such tab.
    pub fn add_or_switch(&mut self, tab: Tab)
        requires
            old(self).wf(),
        ensures
            final(self).wf(),
            final(self)@ == old(self)@.add_or_switch(tab@),
    {
        let at = self.find(tab.name.as_str());
        if at < self.tabs.len() {
            self.tabs[at] = tab;
            self.selected = at;
            assert(self@.tabs =~= old(self)@.tabs.update(at as int, tab@));
        } else {
            self.add(tab);
        }
    }

    /// Closes the selected tab and selects the one before it. The first tab
    /// stays open whatever happens. The result is the channel that the closed
    /// tab showed, if it was closed and showed one.
    pub fn drop(&mut self) -> (left: Option<String>)
        requires
            old(self).wf(),
        ensures
            final(self).wf(),
            final(self)@ == old(self)@.drop(),
            match left {
                Some(channel) => old(self)@.selected != 0 && old(self)@.current().is_channel()
                    && channel@ == old(self)@.current().name,
                None => old(self)@.selected == 0 || !old(self)@.current().is_channel(),
            },
    {
        // Don't drop the first tab
        if self.selected == 0 {
            return None;
        }
        let index = self.selected;
        assert(self@.tabs[index as int] == self.tabs@[index as int]@);
        let closed = self.tabs.remove(index);
        self.selected = index - 1;
        assert(self@.tabs =~= old(self)@.tabs.remove(index as int));
        closed.drop()
    }

    /// Shows a message that came in for `channel` in the first tab of that
    /// name; nothing changes if no tab has it, or if the tab shows no channel.
    pub fn add_message(&mut self, channel: String, timestamp: String, user: String, message: String)
        requires
            old(self).wf(),
        ensures
            final(self).wf(),
            final(self)@ == old(self)@.add_message(channel@, (timestamp@, user@, message@)),
    {
        let at = self.find(channel.as_str());
        if at < self.tabs.len() {
            assert(self@.tabs[at as int] == self.tabs@[at as int]@);
            self.tabs[at].receive(timestamp, user, message);
            assert(self@.tabs =~= old(self)@.tabs.update(
                at as int,
                old(self)@.tabs[at as int].received((timestamp@, user@, message@)),
            ));
        }
    }

    /// Selects the next tab, the first one after the last.
    pub fn next(&mut self)
        requires
            old(self).wf(),
        ensures
            final(self).wf(),
            final(self)@ == old(self)@.next(),
    {
        let count = self.tabs.len();
        let index = self.selected;
        assert(self@.tabs.len() == count);
        assert(index < count);
        self.selected = if index + 1 < count {
            index + 1
        } else {
            0
        };
        assert(self@.tabs =~= old(self)@.tabs);
    }

    /// A copy of the selected tab.
    pub fn get_selected(&self) -> (tab: Tab)
        requires
            self.wf(),
        ensures
            tab@ == self@.current(),
    {
        assert(self@.tabs[self.selected as int] == self.tabs@[self.selected as int]@);
        self.tabs[self.selected].copy()
    }

    /// Deletes the last character typed into the selected tab.
    pub fn input_del_char(&mut self)
        requires
            old(self).wf(),
        ensures
            final(self).wf(),
            final(self)@ == old(self)@.with_current(old(self)@.current().erased()),
    {
        let index = self.selected;
        assert(self@.tabs[index as int] == self.tabs@[index as int]@);
        self.tabs[index].input_del_char();
        assert(self@.tabs =~= old(self)@.tabs.update(
            index as int,
            old(self)@.current().erased(),
        ));
    }

    /// Types `ch` into the selected tab.
    pub fn input_add_char(&mut self, ch: char)
        requires
            old(self).wf(),
        ensures
            final(self).wf(),
            final(self)@ == old(self)@.with_current(old(self)@.current().typed(ch)),
    {
        let index = self.selected;
        assert(self@.tabs[index as int] == self.tabs@[index as int]@);
        self.tabs[index].input_add_char(ch);
        assert(self@.tabs =~= old(self)@.tabs.update(
            index as int,
            old(self)@.current().typed(ch),
        ));
    }

    /// Takes the input out of the selected tab.
    pub fn clear(&mut self) -> (input: String)
        requires
            old(self).wf(),
        ensures
            final(self).wf(),
            input@ == old(self)@.current().input,
            final(self)@ == old(self)@.with_current(old(self)@.current().cleared()),
    {
        let index = self.selected;
        assert(self@.tabs[index as int] == self.tabs@[index as int]@);
        let input = self.tabs[index].clear();
        assert(self@.tabs =~= old(self)@.tabs.update(
            index as int,
            old(self)@.current().cleared(),
        ));
        input
    }

    /// The names of the tabs, in their order.
    pub fn names(&self) -> (names: Vec<String>)
        ensures
            crate::names::texts(names@) == self@.names(),
    {
        let mut names: Vec<String> = Vec::new();
        let mut i: usize = 0;
        while i < self.tabs.len()
            invariant
                i <= self.tabs@.len(),
                names@.len() == i,
                forall|j: int| 0 <= j < i ==> (#[trigger] names@[j])@ == self.tabs@[j]@.name,
            decreases self.tabs@.len() - i,
        {
            names.push(self.tabs[i].get_name());
            i = i + 1;
        }
        assert(crate::names::texts(names@) =~= self@.names());
        names
    }
}

/// The narrowest window in which the tabs are drawn.
pub const MIN_WIDTH: u16 = 80;

/// The lowest window in which the tabs are drawn.
pub const MIN_HEIGHT: u16 = 24;

/// The columns that the text of a span takes up on a terminal: what
/// `tui::text::Span::width` gives for it.
pub uninterp spec fn span_width(text: Seq<char>) -> nat;

/// Wraps `tui::text::Span::width` on a span that holds `text`: the result is
/// the number of columns that the text takes up.
#[verifier::external_body]
fn text_width(text: &str) -> (w: usize)
    ensures
        w == span_width(text@),
{
    tui::text::Span::raw(text).width()
}

/// The sum of `a` and `b`, or the largest number if that is less.
pub open spec fn capped_sum(a: nat, b: nat) -> nat {
    if a + b > usize::MAX {
        usize::MAX as nat
    } else {
        a + b
    }
}

fn add_capped(a: usize, b: usize) -> (r: usize)
    ensures
        r == capped_sum(a as nat, b as nat),
{
    if a > usize::MAX - b {
        usize::MAX
    } else {
        a + b
    }
}

/// The columns that a message takes up when it is shown as time stamp,
/// author, a colon with a space, and body; it is counted no further than the
/// largest number.
pub open spec fn line_width(message: Message) -> nat {
    capped_sum(
        capped_sum(capped_sum(span_width(message.0), span_width(message.1)), span_width(": "@)),
        span_width(message.2),
    )
}

/// The rows that lines of the widths `widths` take up in an area `width`
/// columns wide, with its border: two for the border, and for each line one
/// row and one more for every full `width - 3` columns of it.
pub open spec fn rows_used(widths: Seq<usize>, width: u16) -> nat
    decreases widths.len(),
{
    if widths.len() == 0 {
        2
    } else {
        rows_used(widths.drop_last(), width) + (widths.last() as nat) / ((width - 3) as nat) + 1
    }
}

/// How many rows the lines of a channel are scrolled up so that the last of
/// them is seen, with one row to spare: nothing if they fit, and no more than
/// the largest number of rows that a terminal counts.
pub open spec fn scroll_rows(widths: Seq<usize>, area: Rect) -> nat {
    let over = rows_used(widths, area.width) - area.height + 1;
    if over < 0 {
        0
    } else if over > u16::MAX {
        u16::MAX as nat
    } else {
        over as nat
    }
}

/// What decides how the screen of a client is laid out.
pub struct Ui;

impl Ui {
    /// Whether a window of this size is too small for the tabs, so that only
    /// the request to enlarge it is shown.
    pub fn too_small(size: Rect) -> (r: bool)
        ensures
            r == (size.width < MIN_WIDTH || size.height < MIN_HEIGHT),
    {
        size.width < MIN_WIDTH || size.height < MIN_HEIGHT
    }

    /// How far lines of the given widths are scrolled in `area`.
    pub fn scroll(widths: &Vec<usize>, area: Rect) -> (r: u16)
        requires
            area.width > 3,
        ensures
            r == scroll_rows(widths@, area),
    {
        let limit: usize = 200000;
        let per_row: usize = (area.width - 3) as usize;
        // +2 for the borders
        let mut used: usize = 2;
        let mut i: usize = 0;
        while i < widths.len()
            invariant
                i <= widths@.len(),
                limit == 200000,
                per_row == area.width - 3,
                per_row >= 1,
                used <= limit,
                used == if rows_used(widths@.take(i as int), area.width) > limit {
                    limit as nat
                } else {
                    rows_used(widths@.take(i as int), area.width)
                },
            decreases widths@.len() - i,
        {
            proof {
                assert(widths@.take(i + 1).drop_last() =~= widths@.take(i as int));
                assert(widths@.take(i + 1).last() == widths@[i as int]);
            }
            let full: usize = widths[i] / per_row;
            if full >= limit || used + full + 1 > limit {
                used = limit;
            } else {
                used = used + full + 1;
            }
            i = i + 1;
        }
        assert(widths@.take(i as int) =~= widths@);
        let height: usize = area.height as usize;
        // 1 line as buffer
        if used + 1 <= height {
            0
        } else if used + 1 - height > 65535 {
            65535
        } else {
            (used + 1 - height) as u16
        }
    }

    /// How far the messages of a channel are scrolled in `area`.
    pub fn channel_scroll(content: &Vec<(String, String, String)>, area: Rect) -> (r: u16)
        requires
            area.width > 3,
        ensures
            r == scroll_rows(
                Seq::new(content@.len(), |i: int| line_width(message_texts(content@)[i]) as usize),
                area,
            ),
    {
        let mut widths: Vec<usize> = Vec::new();
        let mut i: usize = 0;
        while i < content.len()
            invariant
                i <= content@.len(),
                widths@.len() == i,
                forall|j: int|
                    0 <= j < i ==> (#[trigger] widths@[j]) == line_width(
                        message_texts(content@)[j],
                    ),
            decreases content@.len() - i,
        {
            let line = &content[i];
            let stamp = text_width(line.0.as_str());
            let author = text_width(line.1.as_str());
            let colon = text_width(": ");
            let body = text_width(line.2.as_str());
            widths.push(add_capped(add_capped(add_capped(stamp, author), colon), body));
            i = i + 1;
        }
        assert(widths@ =~= Seq::new(
            content@.len(),
            |i: int| line_width(message_texts(content@)[i]) as usize,
        ));
        Self::scroll(&widths, area)
    }
}

} // verus!
