//! State of the interactive dashboard: the trace lists, the filter, and the
//! selection in each tab.
use vstd::prelude::*;
use crate::text::{clear_string, contains, lower_of, occurs_in, pop_char, push_char, to_lower};
use crate::trace::{HttpTrace, MysqlTrace};

verus! {

#[derive(Clone, Copy, Debug, PartialEq, Eq, Structural)]
pub enum Pane {
    TraceList,
    TraceDetail,
}

/// Which top-level tab is active.
#[derive(Clone, Copy, Debug, PartialEq, Eq, Structural)]
pub enum ActiveTab {
    Http,
    Mysql,
}

pub struct App {
    pub traces: Vec<HttpTrace>,
    pub selected_index: usize,
    pub trace_count: u64,
    pub mysql_traces: Vec<MysqlTrace>,
    pub mysql_selected_index: usize,
    pub mysql_trace_count: u64,
    pub filter: String,
    pub filter_active: bool,
    pub active_pane: Pane,
    pub active_tab: ActiveTab,
    pub should_quit: bool,
    pub backend_name: String,
}

/// `text` passes filter `f`: an empty filter passes everything, else the
/// filter occurs in the text, ignoring case.
pub open spec fn passes(f: Seq<char>, text: Seq<char>) -> bool {
    f.len() == 0 || occurs_in(lower_of(f), lower_of(text))
}

/// The HTTP traces whose URL passes filter `f`, in order.
pub open spec fn filter_http(s: Seq<HttpTrace>, f: Seq<char>) -> Seq<HttpTrace>
    decreases s.len(),
{
    if s.len() == 0 {
        s
    } else {
        let k = filter_http(s.drop_last(), f);
        if passes(f, s.last().url@) {
            k.push(s.last())
        } else {
            k
        }
    }
}

/// The MySQL traces whose query passes filter `f`, in order.
pub open spec fn filter_mysql(s: Seq<MysqlTrace>, f: Seq<char>) -> Seq<MysqlTrace>
    decreases s.len(),
{
    if s.len() == 0 {
        s
    } else {
        let k = filter_mysql(s.drop_last(), f);
        if passes(f, s.last().query@) {
            k.push(s.last())
        } else {
            k
        }
    }
}

pub open spec fn last_index(n: nat) -> usize {
    if n == 0 {
        0
    } else {
        (n - 1) as usize
    }
}

fn text_passes(f: &str, lower_f: &str, text: &str) -> (r: bool)
    requires
        lower_f@ == lower_of(f@),
    ensures
        r == passes(f@, text@),
{
    if f.unicode_len() == 0 {
        return true;
    }
    let t = to_lower(text);
    contains(t.as_str(), lower_f)
}

impl App {
    pub open spec fn view_filter(&self) -> Seq<char> {
        self.filter@
    }

    /// The trace lists and counts are those of `o`.
    pub open spec fn same_lists(&self, o: &App) -> bool {
        &&& self.traces@ == o.traces@
        &&& self.mysql_traces@ == o.mysql_traces@
        &&& self.trace_count == o.trace_count
        &&& self.mysql_trace_count == o.mysql_trace_count
    }

    /// Tab, pane, quit flag and backend name are those of `o`.
    pub open spec fn same_frame(&self, o: &App) -> bool {
        &&& self.active_tab == o.active_tab
        &&& self.active_pane == o.active_pane
        &&& self.should_quit == o.should_quit
        &&& self.backend_name@ == o.backend_name@
    }

    /// The filter and filter mode are those of `o`.
    pub open spec fn same_filter(&self, o: &App) -> bool {
        &&& self.filter@ == o.filter@
        &&& self.filter_active == o.filter_active
    }

    pub open spec fn shown_http(&self) -> Seq<HttpTrace> {
        filter_http(self.traces@, self.filter@)
    }

    pub open spec fn shown_mysql(&self) -> Seq<MysqlTrace> {
        filter_mysql(self.mysql_traces@, self.filter@)
    }

    pub fn new(backend_name: &str) -> (r: App)
        ensures
            r.traces@.len() == 0,
            r.mysql_traces@.len() == 0,
            r.selected_index == 0,
            r.mysql_selected_index == 0,
            r.trace_count == 0,
            r.mysql_trace_count == 0,
            r.filter@.len() == 0,
            !r.filter_active,
            r.active_pane == Pane::TraceList,
            r.active_tab == ActiveTab::Http,
            !r.should_quit,
            r.backend_name@ == backend_name@,
    {
        App {
            traces: Vec::new(),
            selected_index: 0,
            trace_count: 0,
            mysql_traces: Vec::new(),
            mysql_selected_index: 0,
            mysql_trace_count: 0,
            filter: String::new(),
            filter_active: false,
            active_pane: Pane::TraceList,
            active_tab: ActiveTab::Http,
            should_quit: false,
            backend_name: backend_name.to_owned(),
        }
    }

    /// The HTTP traces that pass the filter, newest first.
    pub fn filtered_traces(&self) -> (r: Vec<&HttpTrace>)
        ensures
            r@.len() == self.shown_http().len(),
            forall|i: int| 0 <= i < r@.len() ==> *r@[i] == self.shown_http()[i],
    {
        let lower_f = to_lower(self.filter.as_str());
        let mut r: Vec<&HttpTrace> = Vec::new();
        let mut i: usize = 0;
        while i < self.traces.len()
            invariant
                i <= self.traces@.len(),
                lower_f@ == lower_of(self.filter@),
                r@.len() == filter_http(self.traces@.take(i as int), self.filter@).len(),
                forall|j: int| 0 <= j < r@.len() ==> *r@[j] == filter_http(self.traces@.take(i as int), self.filter@)[j],
            decreases self.traces@.len() - i,
        {
            proof {
                assert(self.traces@.take(i + 1).drop_last() =~= self.traces@.take(i as int));
            }
            let t = &self.traces[i];
            if text_passes(self.filter.as_str(), lower_f.as_str(), t.url.as_str()) {
                r.push(t);
            }
            i = i + 1;
        }
        proof {
            assert(self.traces@.take(i as int) =~= self.traces@);
        }
        r
    }

    /// The selected HTTP trace among those shown.
    pub fn selected_trace(&self) -> (r: Option<&HttpTrace>)
        ensures
            r is Some <==> self.selected_index < self.shown_http().len(),
            r matches Some(t) ==> *t == self.shown_http()[self.selected_index as int],
    {
        let shown = self.filtered_traces();
        if self.selected_index < shown.len() {
            Some(shown[self.selected_index])
        } else {
            None
        }
    }

    /// Puts a new HTTP trace at the top; an unfiltered selection below the
    /// top moves with its trace.
    pub fn add_trace(&mut self, trace: HttpTrace)
        requires
            old(self).trace_count < u64::MAX,
            old(self).selected_index < usize::MAX,
        ensures
            final(self).traces@ == seq![trace] + old(self).traces@,
            final(self).trace_count == old(self).trace_count + 1,
            final(self).selected_index == if !old(self).filter_active && old(self).selected_index > 0 {
                old(self).selected_index + 1
            } else {
                old(self).selected_index as int
            },
            final(self).mysql_traces@ == old(self).mysql_traces@,
            final(self).filter@ == old(self).filter@,
            final(self).mysql_selected_index == old(self).mysql_selected_index,
            final(self).mysql_trace_count == old(self).mysql_trace_count,
            final(self).same_frame(&*old(self)),
            final(self).same_filter(&*old(self)),
    {
        let ghost t = trace;
        self.traces.insert(0, trace);
        self.trace_count = self.trace_count + 1;
        if !self.filter_active && self.selected_index > 0 {
            self.selected_index = self.selected_index + 1;
        }
        proof {
            assert(self.traces@ =~= seq![t] + old(self).traces@);
        }
    }

    /// The MySQL traces that pass the filter, newest first.
    pub fn filtered_mysql_traces(&self) -> (r: Vec<&MysqlTrace>)
        ensures
            r@.len() == self.shown_mysql().len(),
            forall|i: int| 0 <= i < r@.len() ==> *r@[i] == self.shown_mysql()[i],
    {
        let lower_f = to_lower(self.filter.as_str());
        let mut r: Vec<&MysqlTrace> = Vec::new();
        let mut i: usize = 0;
        while i < self.mysql_traces.len()
            invariant
                i <= self.mysql_traces@.len(),
                lower_f@ == lower_of(self.filter@),
                r@.len() == filter_mysql(self.mysql_traces@.take(i as int), self.filter@).len(),
                forall|j: int| 0 <= j < r@.len() ==> *r@[j] == filter_mysql(self.mysql_traces@.take(i as int), self.filter@)[j],
            decreases self.mysql_traces@.len() - i,
        {
            proof {
                assert(self.mysql_traces@.take(i + 1).drop_last() =~= self.mysql_traces@.take(i as int));
            }
            let t = &self.mysql_traces[i];
            if text_passes(self.filter.as_str(), lower_f.as_str(), t.query.as_str()) {
                r.push(t);
            }
            i = i + 1;
        }
        proof {
            assert(self.mysql_traces@.take(i as int) =~= self.mysql_traces@);
        }
        r
    }

    /// The selected MySQL trace among those shown.
    pub fn selected_mysql_trace(&self) -> (r: Option<&MysqlTrace>)
        ensures
            r is Some <==> self.mysql_selected_index < self.shown_mysql().len(),
            r matches Some(t) ==> *t == self.shown_mysql()[self.mysql_selected_index as int],
    {
        let shown = self.filtered_mysql_traces();
        if self.mysql_selected_index < shown.len() {
            Some(shown[self.mysql_selected_index])
        } else {
            None
        }
    }

    /// Puts a new MySQL trace at the top; an unfiltered selection below the
    /// top moves with its trace.
    pub fn add_mysql_trace(&mut self, trace: MysqlTrace)
        requires
            old(self).mysql_trace_count < u64::MAX,
            old(self).mysql_selected_index < usize::MAX,
        ensures
            final(self).mysql_traces@ == seq![trace] + old(self).mysql_traces@,
            final(self).mysql_trace_count == old(self).mysql_trace_count + 1,
            final(self).mysql_selected_index == if !old(self).filter_active && old(self).mysql_selected_index > 0 {
                old(self).mysql_selected_index + 1
            } else {
                old(self).mysql_selected_index as int
            },
            final(self).traces@ == old(self).traces@,
            final(self).filter@ == old(self).filter@,
            final(self).selected_index == old(self).selected_index,
            final(self).trace_count == old(self).trace_count,
            final(self).same_frame(&*old(self)),
            final(self).same_filter(&*old(self)),
    {
        let ghost t = trace;
        self.mysql_traces.insert(0, trace);
        self.mysql_trace_count = self.mysql_trace_count + 1;
        if !self.filter_active && self.mysql_selected_index > 0 {
            self.mysql_selected_index = self.mysql_selected_index + 1;
        }
        proof {
            assert(self.mysql_traces@ =~= seq![t] + old(self).mysql_traces@);
        }
    }

    /// Switches tab, back to the list pane, with the filter cleared.
    pub fn switch_tab(&mut self, tab: ActiveTab)
        ensures
            final(self).active_tab == tab,
            final(self).active_pane == Pane::TraceList,
            final(self).filter@.len() == 0,
            !final(self).filter_active,
            final(self).selected_index == 0,
            final(self).mysql_selected_index == 0,
            final(self).same_lists(&*old(self)),
            final(self).should_quit == old(self).should_quit,
            final(self).backend_name@ == old(self).backend_name@,
    {
        self.active_tab = tab;
        self.active_pane = Pane::TraceList;
        self.clear_filter();
    }

    /// Moves the active tab's selection up one, stopping at the top.
    pub fn move_up(&mut self)
        ensures
            old(self).active_tab == ActiveTab::Http ==> final(self).selected_index == (if old(self).selected_index > 0 {
                old(self).selected_index - 1
            } else {
                0
            }) && final(self).mysql_selected_index == old(self).mysql_selected_index,
            old(self).active_tab == ActiveTab::Mysql ==> final(self).mysql_selected_index == (if old(self).mysql_selected_index > 0 {
                old(self).mysql_selected_index - 1
            } else {
                0
            }) && final(self).selected_index == old(self).selected_index,
            final(self).active_tab == old(self).active_tab,
            final(self).same_lists(&*old(self)),
            final(self).same_frame(&*old(self)),
            final(self).same_filter(&*old(self)),
    {
        match self.active_tab {
            ActiveTab::Http => {
                if self.selected_index > 0 {
                    self.selected_index = self.selected_index - 1;
                }
            },
            ActiveTab::Mysql => {
                if self.mysql_selected_index > 0 {
                    self.mysql_selected_index = self.mysql_selected_index - 1;
                }
            },
        }
    }

    /// Moves the active tab's selection down one, stopping at the last shown
    /// trace.
    pub fn move_down(&mut self)
        ensures
            old(self).active_tab == ActiveTab::Http ==> final(self).selected_index == (if old(self).selected_index < last_index(old(self).shown_http().len()) {
                old(self).selected_index + 1
            } else {
                old(self).selected_index as int
            }) && final(self).mysql_selected_index == old(self).mysql_selected_index,
            old(self).active_tab == ActiveTab::Mysql ==> final(self).mysql_selected_index == (if old(self).mysql_selected_index < last_index(old(self).shown_mysql().len()) {
                old(self).mysql_selected_index + 1
            } else {
                old(self).mysql_selected_index as int
            }) && final(self).selected_index == old(self).selected_index,
            final(self).active_tab == old(self).active_tab,
            final(self).same_lists(&*old(self)),
            final(self).same_frame(&*old(self)),
            final(self).same_filter(&*old(self)),
    {
        match self.active_tab {
            ActiveTab::Http => {
                let n = self.filtered_traces().len();
                let max = if n > 0 {
                    n - 1
                } else {
                    0
                };
                if self.selected_index < max {
                    self.selected_index = self.selected_index + 1;
                }
            },
            ActiveTab::Mysql => {
                let n = self.filtered_mysql_traces().len();
                let max = if n > 0 {
                    n - 1
                } else {
                    0
                };
                if self.mysql_selected_index < max {
                    self.mysql_selected_index = self.mysql_selected_index + 1;
                }
            },
        }
    }

    /// Selects the top of the active tab.
    pub fn jump_top(&mut self)
        ensures
            old(self).active_tab == ActiveTab::Http ==> final(self).selected_index == 0
                && final(self).mysql_selected_index == old(self).mysql_selected_index,
            old(self).active_tab == ActiveTab::Mysql ==> final(self).mysql_selected_index == 0
                && final(self).selected_index == old(self).selected_index,
            final(self).same_lists(&*old(self)),
            final(self).same_frame(&*old(self)),
            final(self).same_filter(&*old(self)),
    {
        match self.active_tab {
            ActiveTab::Http => self.selected_index = 0,
            ActiveTab::Mysql => self.mysql_selected_index = 0,
        }
    }

    /// Selects the last shown trace of the active tab.
    pub fn jump_bottom(&mut self)
        ensures
            old(self).active_tab == ActiveTab::Http ==> final(self).selected_index == last_index(old(self).shown_http().len())
                && final(self).mysql_selected_index == old(self).mysql_selected_index,
            old(self).active_tab == ActiveTab::Mysql ==> final(self).mysql_selected_index == last_index(old(self).shown_mysql().len())
                && final(self).selected_index == old(self).selected_index,
            final(self).same_lists(&*old(self)),
            final(self).same_frame(&*old(self)),
            final(self).same_filter(&*old(self)),
    {
        match self.active_tab {
            ActiveTab::Http => {
                let n = self.filtered_traces().len();
                self.selected_index = if n > 0 {
                    n - 1
                } else {
                    0
                };
            },
            ActiveTab::Mysql => {
                let n = self.filtered_mysql_traces().len();
                self.mysql_selected_index = if n > 0 {
                    n - 1
                } else {
                    0
                };
            },
        }
    }

    pub fn toggle_pane(&mut self)
        ensures
            final(self).active_pane == (if old(self).active_pane == Pane::TraceList {
                Pane::TraceDetail
            } else {
                Pane::TraceList
            }),
            final(self).same_lists(&*old(self)),
            final(self).same_filter(&*old(self)),
            final(self).active_tab == old(self).active_tab,
            final(self).selected_index == old(self).selected_index,
            final(self).mysql_selected_index == old(self).mysql_selected_index,
    {
        self.active_pane = match self.active_pane {
            Pane::TraceList => Pane::TraceDetail,
            Pane::TraceDetail => Pane::TraceList,
        };
    }

    pub fn activate_filter(&mut self)
        ensures
            final(self).filter_active,
            final(self).filter@ == old(self).filter@,
            final(self).same_lists(&*old(self)),
            final(self).same_frame(&*old(self)),
            final(self).selected_index == old(self).selected_index,
            final(self).mysql_selected_index == old(self).mysql_selected_index,
    {
        self.filter_active = true;
    }

    pub fn deactivate_filter(&mut self)
        ensures
            !final(self).filter_active,
            final(self).filter@ == old(self).filter@,
            final(self).same_lists(&*old(self)),
            final(self).same_frame(&*old(self)),
            final(self).selected_index == old(self).selected_index,
            final(self).mysql_selected_index == old(self).mysql_selected_index,
    {
        self.filter_active = false;
    }

    /// Empties the filter, leaves filter mode and selects the tops.
    pub fn clear_filter(&mut self)
        ensures
            final(self).filter@.len() == 0,
            !final(self).filter_active,
            final(self).selected_index == 0,
            final(self).mysql_selected_index == 0,
            final(self).active_tab == old(self).active_tab,
            final(self).active_pane == old(self).active_pane,
            final(self).same_lists(&*old(self)),
            final(self).same_frame(&*old(self)),
    {
        clear_string(&mut self.filter);
        self.filter_active = false;
        self.selected_index = 0;
        self.mysql_selected_index = 0;
    }

    /// Appends a character to the filter and selects the tops.
    pub fn push_filter_char(&mut self, c: char)
        ensures
            final(self).filter@ == old(self).filter@.push(c),
            final(self).selected_index == 0,
            final(self).mysql_selected_index == 0,
            final(self).filter_active == old(self).filter_active,
            final(self).same_lists(&*old(self)),
            final(self).same_frame(&*old(self)),
    {
        push_char(&mut self.filter, c);
        self.selected_index = 0;
        self.mysql_selected_index = 0;
    }

    /// Removes the filter's last character, if any, and selects the tops.
    pub fn pop_filter_char(&mut self)
        ensures
            final(self).filter@ == (if old(self).filter@.len() > 0 {
                old(self).filter@.drop_last()
            } else {
                old(self).filter@
            }),
            final(self).selected_index == 0,
            final(self).mysql_selected_index == 0,
            final(self).filter_active == old(self).filter_active,
            final(self).same_lists(&*old(self)),
            final(self).same_frame(&*old(self)),
    {
        pop_char(&mut self.filter);
        self.selected_index = 0;
        self.mysql_selected_index = 0;
    }
}

/// Paces the dashboard's input polling.
pub struct EventHandler {
    pub tick_rate_ms: u64,
}

impl EventHandler {
    pub fn new(tick_rate_ms: u64) -> (r: EventHandler)
        ensures
            r.tick_rate_ms == tick_rate_ms,
    {
        EventHandler { tick_rate_ms }
    }
}

} // verus!

verus! {

pub open spec fn digit(v: u64) -> char {
    (48 + v % 10) as char
}

/// `HH:MM:SS` of the UTC time of day of a timestamp in milliseconds.
pub open spec fn clock_text(ts_ms: u64) -> Seq<char> {
    let secs = ts_ms / 1000;
    let h = (secs / 3600) % 24;
    let m = (secs / 60) % 60;
    let s = secs % 60;
    seq![digit(h / 10), digit(h), ':', digit(m / 10), digit(m), ':', digit(s / 10), digit(s)]
}

fn digit_char(v: u64) -> (c: char)
    ensures
        c == digit(v),
{
    (48 + (v % 10) as u8) as char
}

/// The UTC time of day of a timestamp, as `HH:MM:SS`.
pub fn format_time(ts_ms: u64) -> (r: String)
    ensures
        r@ == clock_text(ts_ms),
{
    let secs = ts_ms / 1000;
    let h = (secs / 3600) % 24;
    let m = (secs / 60) % 60;
    let s = secs % 60;
    let mut r = String::new();
    push_char(&mut r, digit_char(h / 10));
    push_char(&mut r, digit_char(h));
    push_char(&mut r, ':');
    push_char(&mut r, digit_char(m / 10));
    push_char(&mut r, digit_char(m));
    push_char(&mut r, ':');
    push_char(&mut r, digit_char(s / 10));
    push_char(&mut r, digit_char(s));
    proof {
        assert(r@ =~= clock_text(ts_ms));
    }
    r
}

/// `s` itself when it has at most `max_len` characters, else its first
/// `max_len - 1` characters and an ellipsis.
pub open spec fn truncated(s: Seq<char>, max_len: nat) -> Seq<char> {
    if s.len() > max_len {
        s.take(max_len - 1).push('…')
    } else {
        s
    }
}

/// Shortens text for display to at most `max_len` characters.
pub fn truncate_str(s: &str, max_len: usize) -> (r: String)
    requires
        max_len > 0,
    ensures
        r@ == truncated(s@, max_len as nat),
{
    let n = s.unicode_len();
    if n > max_len {
        let mut r = String::new();
        let mut i: usize = 0;
        while i < max_len - 1
            invariant
                n == s@.len(),
                max_len < n,
                i <= max_len - 1,
                r@ == s@.take(i as int),
            decreases max_len - 1 - i,
        {
            push_char(&mut r, s.get_char(i));
            i = i + 1;
            proof {
                assert(r@ =~= s@.take(i as int));
            }
        }
        push_char(&mut r, '…');
        r
    } else {
        s.to_owned()
    }
}

pub open spec fn s_http_scheme() -> Seq<char> {
    seq!['h', 't', 't', 'p', ':', '/', '/']
}

pub open spec fn s_https_scheme() -> Seq<char> {
    seq!['h', 't', 't', 'p', 's', ':', '/', '/']
}

/// A URL without its `http://` or `https://` prefix.
pub open spec fn without_scheme(u: Seq<char>) -> Seq<char> {
    if crate::text::has_prefix(u, s_http_scheme()) {
        u.subrange(7, u.len() as int)
    } else if crate::text::has_prefix(u, s_https_scheme()) {
        u.subrange(8, u.len() as int)
    } else {
        u
    }
}

/// Shortens a URL for display: the scheme is dropped, then the rest is cut
/// to at most `max_len` characters.
pub fn truncate_url(url: &str, max_len: usize) -> (r: String)
    requires
        max_len > 0,
    ensures
        r@ == truncated(without_scheme(url@), max_len as nat),
{
    let p_http = "http://";
    let p_https = "https://";
    proof {
        reveal_strlit("http://");
        reveal_strlit("https://");
        assert(p_http@ =~= s_http_scheme());
        assert(p_https@ =~= s_https_scheme());
    }
    let display = if crate::text::str_starts_with(url, p_http) {
        crate::text::str_tail(url, 7)
    } else if crate::text::str_starts_with(url, p_https) {
        crate::text::str_tail(url, 8)
    } else {
        url.to_owned()
    };
    truncate_str(display.as_str(), max_len)
}

} // verus!
