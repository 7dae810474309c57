use vstd::prelude::*;

verus! {

/// A single slot between file-change notifications and re-runs: any number
/// of notifications that arrive while a run is in progress make one re-run.
pub struct WatchTrigger {
    pub pending: bool,
}

/// Whether a re-run is pending after `n` more modification notifications.
pub open spec fn after_notifications(pending: bool, n: nat) -> bool
    decreases n,
{
    if n == 0 {
        pending
    } else {
        after_notifications(true, (n - 1) as nat)
    }
}

impl WatchTrigger {
    /// A trigger with nothing pending.
    pub fn new() -> (r: WatchTrigger)
        ensures
            !r.pending,
    {
        WatchTrigger { pending: false }
    }

    /// Takes a notification from the watcher; only a modification of the
    /// file makes a re-run pending, overwriting one already pending.
    pub fn notify(&mut self, modified: bool)
        ensures
            final(self).pending == (old(self).pending || modified),
    {
        if modified {
            self.pending = true;
        }
    }

    /// Whether to run again now; the slot is emptied.
    pub fn take(&mut self) -> (r: bool)
        ensures
            r == old(self).pending,
            !final(self).pending,
    {
        let r = self.pending;
        self.pending = false;
        r
    }
}

/// A burst of one or more modifications, whatever was pending before, leaves
/// the single slot full: one re-run, since `take` empties it.
pub proof fn lemma_burst_coalesces(pending: bool, n: nat)
    requires
        n >= 1,
    ensures
        after_notifications(pending, n),
    decreases n,
{
    if n > 1 {
        lemma_burst_coalesces(true, (n - 1) as nat);
    } else {
        assert(after_notifications(true, 0));
    }
}

/// The outcome of a batch: how many override sets succeeded, and for each
/// that failed its index and error, in order.
pub struct BatchReport {
    pub succeeded: usize,
    pub failures: Vec<(usize, String)>,
}

impl BatchReport {
    /// A report of no run yet.
    pub fn new() -> (r: BatchReport)
        ensures
            r.succeeded == 0,
            r.failures@.len() == 0,
    {
        BatchReport { succeeded: 0, failures: Vec::new() }
    }

    /// Records one more set as succeeded.
    pub fn record_success(&mut self)
        requires
            old(self).succeeded < usize::MAX,
        ensures
            final(self).succeeded == old(self).succeeded + 1,
            final(self).failures@ == old(self).failures@,
    {
        self.succeeded = self.succeeded + 1;
    }

    /// Records the set at `index` as failed with `error`; the batch goes on.
    pub fn record_failure(&mut self, index: usize, error: String)
        ensures
            final(self).succeeded == old(self).succeeded,
            final(self).failures@ == old(self).failures@.push((index, error)),
    {
        self.failures.push((index, error));
    }

    /// Whether every set of the batch succeeded.
    pub fn all_succeeded(&self) -> (r: bool)
        ensures
            r == (self.failures@.len() == 0),
    {
        self.failures.len() == 0
    }
}

/// Whether a file name is that of a request template.
pub open spec fn is_request_name(name: Seq<char>) -> bool {
    name.len() >= 5 && name.skip(name.len() - 5) == seq!['.', 'h', 't', 't', 'p']
}

/// Whether a file name is that of a request template: it ends in `.http`.
pub fn is_request_file(name: &str) -> (r: bool)
    ensures
        r == is_request_name(name@),
{
    let n = name.unicode_len();
    if n < 5 {
        return false;
    }
    let tail = name.substring_char(n - 5, n);
    let r = tail.get_char(0) == '.' && tail.get_char(1) == 'h' && tail.get_char(2) == 't'
        && tail.get_char(3) == 't' && tail.get_char(4) == 'p';
    assert(r ==> tail@ =~= seq!['.', 'h', 't', 't', 'p']);
    r
}

/// The last `depth` components of a path found `depth` levels below the
/// directory walked: its path relative to that directory.
pub fn relative_components(components: &Vec<String>, depth: usize) -> (r: Vec<String>)
    requires
        depth <= components@.len(),
    ensures
        r@ == components@.skip(components@.len() - depth),
{
    let start = components.len() - depth;
    let mut out: Vec<String> = Vec::new();
    let mut i = start;
    while i < components.len()
        invariant
            start <= i <= components@.len(),
            start == components@.len() - depth,
            out@ == components@.subrange(start as int, i as int),
        decreases components.len() - i,
    {
        out.push(components[i].clone());
        assert(out@ =~= components@.subrange(start as int, i + 1));
        i = i + 1;
    }
    assert(components@.subrange(start as int, components@.len() as int) =~= components@.skip(
        start as int,
    ));
    out
}

/// A line of the request as echoed: `> `, the line without a trailing
/// carriage return, and a line feed.
pub open spec fn echo_line(l: Seq<char>) -> Seq<char> {
    let body = if l.len() > 0 && l.last() == '\r' {
        l.drop_last()
    } else {
        l
    };
    seq!['>', ' '] + body + seq!['\n']
}

/// The echo of the text from position `i` on, the line read so far being
/// `cur`: each line echoed, lines ending at a line feed or at the end of a
/// text that does not end in one.
pub open spec fn echo_from(t: Seq<char>, i: int, cur: Seq<char>) -> Seq<char>
    decreases t.len() - i,
{
    if i < 0 || i >= t.len() {
        if cur.len() == 0 {
            Seq::empty()
        } else {
            echo_line(cur)
        }
    } else if t[i] == '\n' {
        echo_line(cur) + echo_from(t, i + 1, Seq::empty())
    } else {
        echo_from(t, i + 1, cur.push(t[i]))
    }
}

/// The echo of a request as shown before its response: each of its lines
/// after `> `, then an empty line.
pub open spec fn request_echo(t: Seq<char>) -> Seq<char> {
    echo_from(t, 0, Seq::empty()) + seq!['\n']
}

fn push_line(out: &mut String, l: &str)
    ensures
        final(out)@ == old(out)@ + echo_line(l@),
{
    let n = l.unicode_len();
    let body = if n > 0 && l.get_char(n - 1) == '\r' {
        l.substring_char(0, n - 1)
    } else {
        l.substring_char(0, n)
    };
    proof {
        reveal_strlit("> ");
        reveal_strlit("\n");
        assert(l@.subrange(0, n as int) =~= l@);
        assert(l@.subrange(0, n - 1) =~= l@.drop_last());
    }
    out.append("> ");
    out.append(body);
    out.append("\n");
    proof {
        assert(final(out)@ =~= old(out)@ + echo_line(l@));
    }
}

/// Renders a request for display: each line after `> `, then an empty line.
pub fn echo_request(buf: &str) -> (r: String)
    ensures
        r@ == request_echo(buf@),
{
    let ghost t = buf@;
    let n = buf.unicode_len();
    let mut out = String::new();
    let mut start: usize = 0;
    let mut i: usize = 0;
    proof {
        assert(Seq::<char>::empty() + echo_from(t, 0, Seq::empty()) =~= echo_from(t, 0, Seq::empty()));
        assert(t.subrange(0, 0) =~= Seq::<char>::empty());
    }
    while i < n
        invariant
            n == t.len(),
            t == buf@,
            start <= i <= n,
            echo_from(t, 0, Seq::empty()) == out@ + echo_from(t, i as int, t.subrange(start as int, i as int)),
        decreases n - i,
    {
        let ghost cur = t.subrange(start as int, i as int);
        if buf.get_char(i) == '\n' {
            let ghost before = out@;
            let line = buf.substring_char(start, i);
            push_line(&mut out, line);
            proof {
                assert(t.subrange(i + 1, i + 1) =~= Seq::<char>::empty());
                assert(before + (echo_line(cur) + echo_from(t, i + 1, Seq::empty())) =~= out@
                    + echo_from(t, i + 1, Seq::empty()));
            }
            start = i + 1;
        } else {
            assert(t.subrange(start as int, i + 1) =~= cur.push(t[i as int]));
        }
        i = i + 1;
    }
    if start < n {
        let line = buf.substring_char(start, n);
        push_line(&mut out, line);
    } else {
        assert(out@ + Seq::<char>::empty() =~= out@);
    }
    proof {
        reveal_strlit("\n");
    }
    out.append("\n");
    out
}

} // verus!
