use vstd::prelude::*;

use crate::strutil::{chars_to_string, chars_vec, spec_is_digit};

verus! {

broadcast use vstd::seq::group_seq_axioms;

// ---------------------------------------------------------------------------
// Shell-output filter
//
// A shell started with the crate's integration scripts marks the end of each
// command with the in-band sequence  ESC ] 777 ; cmd_done ; <decimal> BEL.
// The filter removes those sequences from terminal output before it is
// forwarded, and collects the decoded exit codes.  Other escape sequences
// pass through untouched.  A trailing incomplete candidate is held back so a
// later chunk can complete it.
// ---------------------------------------------------------------------------

/// The marker that opens a command-completion sequence.
pub open spec fn osc_prefix() -> Seq<char> {
    "\u{1b}]777;cmd_done;"@
}

/// Filter state: how many characters of the marker have been matched, and,
/// once the whole marker has been seen, the exit-code text read so far.
pub struct OscStV {
    pub matched: nat,
    pub payload: Seq<char>,
}

pub open spec fn osc_init() -> OscStV {
    OscStV { matched: 0, payload: Seq::empty() }
}

pub open spec fn osc_st_wf(st: OscStV) -> bool {
    st.matched <= 15 && (st.matched < 15 ==> st.payload.len() == 0)
}

/// The value of a digit run; nothing if the run is empty or holds a
/// non-digit.
pub open spec fn dec_digits_val(ds: Seq<char>, acc: nat) -> Option<nat>
    decreases ds.len(),
{
    if ds.len() == 0 {
        Option::Some(acc)
    } else if spec_is_digit(ds[0]) {
        dec_digits_val(ds.skip(1), acc * 10 + (ds[0] as int - 48) as nat)
    } else {
        Option::None
    }
}

/// What `<text>.parse::<i32>()` yields: an optional sign, then digits,
/// rejected when empty, malformed or out of range.
pub open spec fn parse_exit_code(t: Seq<char>) -> Option<i32> {
    if t.len() == 0 {
        Option::None
    } else if t[0] == '-' {
        if t.len() == 1 {
            Option::None
        } else {
            match dec_digits_val(t.skip(1), 0) {
                Option::Some(v) => if v <= 2147483648nat {
                    Option::Some((-(v as int)) as i32)
                } else {
                    Option::None
                },
                Option::None => Option::None,
            }
        }
    } else if t[0] == '+' {
        if t.len() == 1 {
            Option::None
        } else {
            match dec_digits_val(t.skip(1), 0) {
                Option::Some(v) => if v <= 2147483647nat {
                    Option::Some(v as i32)
                } else {
                    Option::None
                },
                Option::None => Option::None,
            }
        }
    } else {
        match dec_digits_val(t, 0) {
            Option::Some(v) => if v <= 2147483647nat {
                Option::Some(v as i32)
            } else {
                Option::None
            },
            Option::None => Option::None,
        }
    }
}

/// One step of the filter: the next state, the text to pass through, and a
/// decoded exit code when a whole sequence just ended.
pub open spec fn osc_step(st: OscStV, c: char) -> (OscStV, Seq<char>, Option<i32>) {
    let pre = osc_prefix();
    if st.matched < 15 {
        if c == pre[st.matched as int] {
            (OscStV { matched: st.matched + 1, payload: Seq::empty() }, Seq::empty(), Option::None)
        } else if c == pre[0] {
            (OscStV { matched: 1, payload: Seq::empty() }, pre.take(st.matched as int), Option::None)
        } else {
            (
                OscStV { matched: 0, payload: Seq::empty() },
                pre.take(st.matched as int).push(c),
                Option::None,
            )
        }
    } else {
        if c == '\u{7}' {
            (OscStV { matched: 0, payload: Seq::empty() }, Seq::empty(), parse_exit_code(st.payload))
        } else {
            (
                OscStV { matched: 15, payload: st.payload.push(c) },
                Seq::empty(),
                Option::None,
            )
        }
    }
}

pub open spec fn opt_code_seq(c: Option<i32>) -> Seq<i32> {
    match c {
        Option::Some(e) => seq![e],
        Option::None => Seq::empty(),
    }
}

/// Running the filter over a text: final state, passed-through text, and the
/// exit codes collected, in order.
pub open spec fn osc_run(st: OscStV, s: Seq<char>) -> (OscStV, Seq<char>, Seq<i32>)
    decreases s.len(),
{
    if s.len() == 0 {
        (st, Seq::empty(), Seq::empty())
    } else {
        let (st1, o1, c1) = osc_step(st, s[0]);
        let (st2, o2, cs) = osc_run(st1, s.skip(1));
        (st2, o1 + o2, opt_code_seq(c1) + cs)
    }
}

/// What a final flush adds: the text of an incomplete trailing candidate.
pub open spec fn osc_flush(st: OscStV) -> Seq<char> {
    if st.matched < 15 {
        osc_prefix().take(st.matched as int)
    } else {
        osc_prefix() + st.payload
    }
}

/// The filtered form of a whole text, incomplete trailing candidate included.
pub open spec fn strip_filtered(s: Seq<char>) -> Seq<char> {
    osc_run(osc_init(), s).1 + osc_flush(osc_run(osc_init(), s).0)
}

/// The exit codes found in a whole text.
pub open spec fn strip_codes(s: Seq<char>) -> Seq<i32> {
    osc_run(osc_init(), s).2
}

/// Splitting a text into chunks never changes what the filter does: running
/// on the concatenation equals running on the parts in turn.  This is why
/// a command-completion sequence split across reads is still recognised.
pub proof fn lemma_osc_run_concat(st: OscStV, a: Seq<char>, b: Seq<char>)
    ensures
        osc_run(st, a + b).0 == osc_run(osc_run(st, a).0, b).0,
        osc_run(st, a + b).1 == osc_run(st, a).1 + osc_run(osc_run(st, a).0, b).1,
        osc_run(st, a + b).2 == osc_run(st, a).2 + osc_run(osc_run(st, a).0, b).2,
    decreases a.len(),
{
    if a.len() == 0 {
        assert(a + b =~= b);
        assert(osc_run(st, a).1 + osc_run(osc_run(st, a).0, b).1 =~= osc_run(st, b).1);
        assert(osc_run(st, a).2 + osc_run(osc_run(st, a).0, b).2 =~= osc_run(st, b).2);
    } else {
        let (st1, o1, c1) = osc_step(st, a[0]);
        assert((a + b)[0] == a[0]);
        assert((a + b).skip(1) =~= a.skip(1) + b);
        lemma_osc_run_concat(st1, a.skip(1), b);
        assert(osc_run(st, a + b).1 =~= osc_run(st, a).1 + osc_run(osc_run(st, a).0, b).1);
        assert(osc_run(st, a + b).2 =~= osc_run(st, a).2 + osc_run(osc_run(st, a).0, b).2);
    }
}

// ---------------------------------------------------------------------------
// Executable filter
// ---------------------------------------------------------------------------

/// The result of filtering one chunk of shell output.
pub struct OscParseResult {
    pub filtered_output: String,
    pub cmd_done_exit_codes: Vec<i32>,
}

fn prefix_chars() -> (r: Vec<char>)
    ensures
        r@ == osc_prefix(),
        r@.len() == 15,
{
    proof {
        reveal_strlit("\u{1b}]777;cmd_done;");
    }
    chars_vec("\u{1b}]777;cmd_done;")
}

/// Parses an exit-code payload the way `str::parse::<i32>` would.
fn parse_code_chars(t: &Vec<char>) -> (r: Option<i32>)
    ensures
        r == parse_exit_code(t@),
{
    assert(t@.skip(0) =~= t@);
    if t.len() == 0 {
        return Option::None;
    }
    let c0 = t[0];
    let (neg, start): (bool, usize) = if c0 == '-' {
        (true, 1)
    } else if c0 == '+' {
        (false, 1)
    } else {
        (false, 0)
    };
    if t.len() == start {
        return Option::None;
    }
    let mut acc: u64 = 0;
    let mut j: usize = start;
    let bound: u64 = if neg {
        2147483648u64
    } else {
        2147483647u64
    };
    loop
        invariant
            start <= j <= t@.len(),
            acc <= 2147483648u64,
            t@.len() > start,
            start == 0 || start == 1,
            c0 == t@[0],
            (start == 1) == (c0 == '-' || c0 == '+'),
            neg == (c0 == '-'),
            dec_digits_val(t@.skip(start as int), 0) == dec_digits_val(t@.skip(j as int), acc as nat),
        ensures
            t@.len() > start,
            start == 0 || start == 1,
            c0 == t@[0],
            (start == 1) == (c0 == '-' || c0 == '+'),
            neg == (c0 == '-'),
            j == t@.len(),
            dec_digits_val(t@.skip(start as int), 0) == Option::Some(acc as nat),
            acc <= 2147483648u64,
        decreases t@.len() - j,
    {
        if j >= t.len() {
            assert(t@.skip(j as int).len() == 0);
            break;
        }
        assert(t@.skip(0) =~= t@);
        let c = t[j];
        assert(t@.skip(j as int)[0] == t@[j as int]);
        if !(c >= '0' && c <= '9') {
            return Option::None;
        }
        let d: u8 = crate::strutil::hex_digit_val(c);
        if acc > 214748364u64 || (acc == 214748364u64 && d > 8) {
            proof {
                let next = (acc * 10 + d) as nat;
                assert(next > 2147483648nat);
                lemma_dec_digits_monotone(t@.skip(j as int).skip(1), next);
                assert(t@.skip(j as int).skip(1) =~= t@.skip(j as int + 1));
            }
            return Option::None;
        }
        acc = acc * 10 + (d as u64);
        assert(t@.skip(j as int).skip(1) =~= t@.skip(j as int + 1));
        j = j + 1;
    }
    assert(t@.skip(0) =~= t@);
    if acc > bound {
        return Option::None;
    }
    if neg {
        let m: i32 = if acc == 2147483648u64 {
            i32::MIN
        } else {
            -(acc as i32)
        };
        assert(((-(acc as int)) as i32) == m);
        Option::Some(m)
    } else {
        Option::Some(acc as i32)
    }
}

proof fn lemma_dec_digits_monotone(ds: Seq<char>, acc: nat)
    ensures
        dec_digits_val(ds, acc) matches Option::Some(v) ==> v >= acc,
    decreases ds.len(),
{
    if ds.len() != 0 && spec_is_digit(ds[0]) {
        let d = (ds[0] as int - 48) as nat;
        assert(acc * 10 + d >= acc) by (nonlinear_arith);
        lemma_dec_digits_monotone(ds.skip(1), acc * 10 + d);
    }
}

/// The filter, kept across chunks: an incomplete trailing candidate waits in
/// the state for the next read to finish it.
pub struct OscFilter {
    matched: u8,
    payload: Vec<char>,
}

impl OscFilter {
    pub closed spec fn view(&self) -> OscStV {
        OscStV { matched: self.matched as nat, payload: self.payload@ }
    }

    pub open spec fn wf(&self) -> bool {
        osc_st_wf(self@)
    }

    pub fn new() -> (r: OscFilter)
        ensures
            r@ == osc_init(),
            r.wf(),
    {
        OscFilter { matched: 0, payload: Vec::new() }
    }

    /// Filters one chunk: returns the text to pass on and any exit codes
    /// completed inside this chunk.
    pub fn feed(&mut self, chunk: &str) -> (r: (String, Vec<i32>))
        requires
            old(self).wf(),
        ensures
            final(self).wf(),
            final(self)@ == osc_run(old(self)@, chunk@).0,
            r.0@ == osc_run(old(self)@, chunk@).1,
            r.1@ == osc_run(old(self)@, chunk@).2,
    {
        let cs = chars_vec(chunk);
        let pre = prefix_chars();
        let mut out: Vec<char> = Vec::new();
        let mut codes: Vec<i32> = Vec::new();
        let mut i: usize = 0;
        let ghost st0 = self@;
        proof {
            assert(chunk@.take(0) =~= Seq::<char>::empty());
        }
        while i < cs.len()
            invariant
                i <= cs@.len(),
                cs@ == chunk@,
                pre@ == osc_prefix(),
                pre@.len() == 15,
                self.wf(),
                osc_run(st0, chunk@.take(i as int)).0 == self@,
                osc_run(st0, chunk@.take(i as int)).1 == out@,
                osc_run(st0, chunk@.take(i as int)).2 == codes@,
                osc_st_wf(st0),
            decreases cs@.len() - i,
        {
            let c = cs[i];
            let ghost prev = self@;
            let ghost out_prev = out@;
            let ghost codes_prev = codes@;
            proof {
                lemma_osc_run_concat(st0, chunk@.take(i as int), seq![c]);
                assert(chunk@.take(i as int) + seq![c] =~= chunk@.take(i as int + 1));
                assert(seq![c].skip(1) =~= Seq::<char>::empty());
                assert(seq![c][0] == c);
                let ghost st1 = osc_step(prev, c).0;
                assert(osc_run(st1, Seq::<char>::empty()) == (
                    st1,
                    Seq::<char>::empty(),
                    Seq::<i32>::empty(),
                ));
                assert(osc_run(prev, seq![c]).0 == osc_step(prev, c).0);
                assert(osc_run(prev, seq![c]).1 =~= osc_step(prev, c).1);
                assert(osc_run(prev, seq![c]).2 =~= opt_code_seq(osc_step(prev, c).2));
            }
            if self.matched < 15 {
                if c == pre[self.matched as usize] {
                    self.matched = self.matched + 1;
                    self.payload = Vec::new();
                } else if c == pre[0] {
                    let mut k: usize = 0;
                    let ghost m0 = self.matched as int;
                    while k < self.matched as usize
                        invariant
                            k <= self.matched as nat,
                            self.matched as int == m0,
                            self.matched <= 15,
                            pre@ == osc_prefix(),
                            pre@.len() == 15,
                            out@ == out_prev + osc_prefix().take(m0).take(k as int),
                        decreases self.matched as int - k,
                    {
                        assert(osc_prefix().take(m0).take(k as int).push(
                            osc_prefix()[k as int],
                        ) =~= osc_prefix().take(m0).take(k as int + 1));
                        out.push(pre[k]);
                        k = k + 1;
                    }
                    assert(osc_prefix().take(m0).take(m0) =~= osc_prefix().take(m0));
                    self.matched = 1;
                    self.payload = Vec::new();
                } else {
                    let mut k: usize = 0;
                    let ghost m0 = self.matched as int;
                    while k < self.matched as usize
                        invariant
                            k <= self.matched as nat,
                            self.matched as int == m0,
                            self.matched <= 15,
                            pre@ == osc_prefix(),
                            pre@.len() == 15,
                            out@ == out_prev + osc_prefix().take(m0).take(k as int),
                        decreases self.matched as int - k,
                    {
                        assert(osc_prefix().take(m0).take(k as int).push(
                            osc_prefix()[k as int],
                        ) =~= osc_prefix().take(m0).take(k as int + 1));
                        out.push(pre[k]);
                        k = k + 1;
                    }
                    assert(osc_prefix().take(m0).take(m0) =~= osc_prefix().take(m0));
                    out.push(c);
                    self.matched = 0;
                    self.payload = Vec::new();
                }
            } else {
                if c == '\u{7}' {
                    match parse_code_chars(&self.payload) {
                        Option::Some(code) => codes.push(code),
                        Option::None => {},
                    }
                    self.matched = 0;
                    self.payload = Vec::new();
                } else {
                    self.payload.push(c);
                }
            }
            proof {
                assert(self@ == osc_step(prev, c).0);
                assert(out@ =~= out_prev + osc_step(prev, c).1);
                assert(codes@ =~= codes_prev + opt_code_seq(osc_step(prev, c).2));
                assert(osc_run(st0, chunk@.take(i as int + 1)).0 == self@);
                assert(osc_run(st0, chunk@.take(i as int + 1)).1 =~= out@);
                assert(osc_run(st0, chunk@.take(i as int + 1)).2 =~= codes@);
            }
            i = i + 1;
        }
        assert(chunk@.take(chunk@.len() as int) == chunk@);
        (chars_to_string(&out), codes)
    }

    /// Hands back any text held as an incomplete trailing candidate and
    /// resets the filter.
    pub fn flush(&mut self) -> (r: String)
        requires
            old(self).wf(),
        ensures
            final(self)@ == osc_init(),
            final(self).wf(),
            r@ == osc_flush(old(self)@),
    {
        let pre = prefix_chars();
        let mut out: Vec<char> = Vec::new();
        if self.matched < 15 {
            let mut k: usize = 0;
            while k < self.matched as usize
                invariant
                    k <= self.matched as nat,
                    self.matched < 15,
                    pre@ == osc_prefix(),
                    pre@.len() == 15,
                    out@ == osc_prefix().take(self.matched as int).take(k as int),
                decreases self.matched as int - k,
            {
                assert(osc_prefix().take(self.matched as int).take(k as int).push(
                    osc_prefix()[k as int],
                ) =~= osc_prefix().take(self.matched as int).take(k as int + 1));
                out.push(pre[k]);
                k = k + 1;
            }
            assert(osc_prefix().take(self.matched as int).take(self.matched as int)
                =~= osc_prefix().take(self.matched as int));
        } else {
            crate::strutil::append_chars(&mut out, &pre);
            crate::strutil::append_chars(&mut out, &self.payload);
        }
        self.matched = 0;
        self.payload = Vec::new();
        chars_to_string(&out)
    }
}

/// Filters one complete chunk of shell output: command-completion sequences
/// are removed and their exit codes collected; an incomplete trailing
/// candidate is kept in the output to be completed by the next read.
pub fn strip_osc_cmd_done(data: &str) -> (r: OscParseResult)
    ensures
        r.filtered_output@ == strip_filtered(data@),
        r.cmd_done_exit_codes@ == strip_codes(data@),
{
    let mut filter = OscFilter::new();
    let (out, codes) = filter.feed(data);
    let tail = filter.flush();
    let mut all = chars_vec(out.as_str());
    let tailv = chars_vec(tail.as_str());
    crate::strutil::append_chars(&mut all, &tailv);
    OscParseResult { filtered_output: chars_to_string(&all), cmd_done_exit_codes: codes }
}

} // verus!
