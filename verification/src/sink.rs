//! The sample log: one line of text for each sample, in the order written.

use crate::sample::{decimal_value, is_digit, well_formed, LatencySample, SampleModel};
use vstd::prelude::*;
use vstd::string::*;

verus! {

/// The character of a digit below ten.
pub open spec fn digit_text(d: nat) -> Seq<char> {
    if d == 0 {
        seq!['0']
    } else if d == 1 {
        seq!['1']
    } else if d == 2 {
        seq!['2']
    } else if d == 3 {
        seq!['3']
    } else if d == 4 {
        seq!['4']
    } else if d == 5 {
        seq!['5']
    } else if d == 6 {
        seq!['6']
    } else if d == 7 {
        seq!['7']
    } else if d == 8 {
        seq!['8']
    } else {
        seq!['9']
    }
}

/// A number in decimal, without leading zeros.
pub open spec fn decimal_text(n: nat) -> Seq<char>
    decreases n,
{
    if n < 10 {
        digit_text(n)
    } else {
        decimal_text(n / 10) + digit_text(n % 10)
    }
}

/// A sample as text: the timestamp, one space, the latency in decimal.
pub open spec fn entry_text(m: SampleModel) -> Seq<char> {
    m.timestamp + seq![' '] + decimal_text(m.latency_ms as nat)
}

/// The line that a sample takes in the log.
pub open spec fn line_text(m: SampleModel) -> Seq<char> {
    entry_text(m) + seq!['\n']
}

/// The log that holds these samples and nothing else.
pub open spec fn log_text(samples: Seq<SampleModel>) -> Seq<char>
    decreases samples.len(),
{
    if samples.len() == 0 {
        Seq::<char>::empty()
    } else {
        log_text(samples.drop_last()) + line_text(samples.last())
    }
}

/// How many line breaks a text holds.
pub open spec fn line_breaks(text: Seq<char>) -> nat
    decreases text.len(),
{
    if text.len() == 0 {
        0
    } else {
        line_breaks(text.drop_last()) + if text.last() == '\n' {
            1nat
        } else {
            0nat
        }
    }
}

/// Where the line of sample `n` starts in the log of `samples`.
pub open spec fn line_start(samples: Seq<SampleModel>, n: int) -> nat {
    log_text(samples.take(n)).len()
}

pub proof fn lemma_line_breaks_concat(a: Seq<char>, b: Seq<char>)
    ensures
        line_breaks(a + b) == line_breaks(a) + line_breaks(b),
    decreases b.len(),
{
    if b.len() == 0 {
        assert(a + b =~= a);
    } else {
        lemma_line_breaks_concat(a, b.drop_last());
        assert((a + b).drop_last() =~= a + b.drop_last());
    }
}

pub proof fn lemma_no_breaks(text: Seq<char>)
    requires
        forall|x: int| 0 <= x < text.len() ==> text[x] != '\n',
    ensures
        line_breaks(text) == 0,
    decreases text.len(),
{
    if text.len() > 0 {
        lemma_no_breaks(text.drop_last());
    }
}

/// A number's decimal text is a run of digits, and not empty.
pub proof fn lemma_decimal_text_is_digits(n: nat)
    ensures
        decimal_text(n).len() > 0,
        forall|x: int| 0 <= x < decimal_text(n).len() ==> is_digit(#[trigger] decimal_text(n)[x]),
    decreases n,
{
    if n >= 10 {
        lemma_decimal_text_is_digits(n / 10);
    }
}

/// The decimal text of a number denotes that number.
pub proof fn law_decimal_text_reads_back(n: nat)
    ensures
        decimal_value(decimal_text(n)) == n,
    decreases n,
{
    if n < 10 {
        assert(decimal_text(n).drop_last() =~= Seq::<char>::empty());
        assert(decimal_value(decimal_text(n).drop_last()) == 0);
    } else {
        law_decimal_text_reads_back(n / 10);
        assert(decimal_text(n).drop_last() =~= decimal_text(n / 10));
        assert(decimal_text(n).last() == digit_text(n % 10)[0]);
    }
}

/// The line of a well-formed sample holds one line break: its last
/// character.
pub proof fn lemma_line_has_one_break(m: SampleModel)
    requires
        well_formed(m),
    ensures
        line_breaks(line_text(m)) == 1,
        line_text(m).last() == '\n',
{
    lemma_decimal_text_is_digits(m.latency_ms as nat);
    let entry = entry_text(m);
    let number = decimal_text(m.latency_ms as nat);
    assert forall|x: int| 0 <= x < entry.len() implies entry[x] != '\n' by {
        if x > m.timestamp.len() {
            assert(entry[x] == number[x - m.timestamp.len() - 1]);
        }
    }
    lemma_no_breaks(entry);
    assert(line_text(m).drop_last() =~= entry);
}

/// The log of a prefix of the samples is a prefix of the log.
pub proof fn lemma_log_prefix(samples: Seq<SampleModel>, n: int)
    requires
        0 <= n <= samples.len(),
    ensures
        line_start(samples, n) <= log_text(samples).len(),
        log_text(samples).subrange(0, line_start(samples, n) as int) == log_text(samples.take(n)),
    decreases samples.len(),
{
    if n == samples.len() {
        assert(samples.take(n) =~= samples);
        assert(log_text(samples).subrange(0, log_text(samples).len() as int) =~= log_text(
            samples,
        ));
    } else {
        let shorter = samples.drop_last();
        lemma_log_prefix(shorter, n);
        assert(shorter.take(n) =~= samples.take(n));
        assert(log_text(samples).subrange(0, line_start(samples, n) as int) =~= log_text(
            shorter,
        ).subrange(0, line_start(samples, n) as int));
    }
}

/// Appending a sample to the log of `samples` gives the log of `samples`
/// followed by that sample.
pub proof fn law_append_extends_log(samples: Seq<SampleModel>, sample: SampleModel)
    ensures
        log_text(samples.push(sample)) == log_text(samples) + line_text(sample),
{
    assert(samples.push(sample).drop_last() =~= samples);
}

/// The samples stand in the log in the order in which they were appended,
/// each as its own line in the exact format: sample `n` takes the text
/// from the end of the line before it to the start of the line after it.
pub proof fn law_log_keeps_order(samples: Seq<SampleModel>, n: int)
    requires
        0 <= n < samples.len(),
    ensures
        line_start(samples, n) <= line_start(samples, n + 1) <= log_text(samples).len(),
        log_text(samples).subrange(
            line_start(samples, n) as int,
            line_start(samples, n + 1) as int,
        ) == line_text(samples[n]),
{
    lemma_log_prefix(samples, n + 1);
    let upto = samples.take(n + 1);
    assert(upto.drop_last() =~= samples.take(n));
    assert(upto.last() == samples[n]);
    assert(log_text(upto) == log_text(samples.take(n)) + line_text(samples[n]));
    let from = line_start(samples, n) as int;
    let to = line_start(samples, n + 1) as int;
    assert(log_text(upto).len() == to);
    assert(log_text(upto).subrange(from, to) =~= line_text(samples[n]));
    assert(log_text(samples).subrange(from, to) =~= log_text(samples).subrange(0, to).subrange(
        from,
        to,
    ));
}

/// The log of `n` well-formed samples, written to an empty log, holds `n`
/// lines.
pub proof fn law_log_has_one_line_per_sample(samples: Seq<SampleModel>)
    requires
        forall|x: int| 0 <= x < samples.len() ==> well_formed(#[trigger] samples[x]),
    ensures
        line_breaks(log_text(samples)) == samples.len(),
    decreases samples.len(),
{
    if samples.len() > 0 {
        law_log_has_one_line_per_sample(samples.drop_last());
        lemma_line_has_one_break(samples.last());
        lemma_line_breaks_concat(log_text(samples.drop_last()), line_text(samples.last()));
    }
}

fn digit_str(d: u16) -> (r: &'static str)
    requires
        d < 10,
    ensures
        r@ == digit_text(d as nat),
{
    proof {
        reveal_strlit("0");
        reveal_strlit("1");
        reveal_strlit("2");
        reveal_strlit("3");
        reveal_strlit("4");
        reveal_strlit("5");
        reveal_strlit("6");
        reveal_strlit("7");
        reveal_strlit("8");
        reveal_strlit("9");
    }
    let r = match d {
        0 => "0",
        1 => "1",
        2 => "2",
        3 => "3",
        4 => "4",
        5 => "5",
        6 => "6",
        7 => "7",
        8 => "8",
        _ => "9",
    };
    assert(r@ =~= digit_text(d as nat));
    r
}

/// Writes a number in decimal.
pub fn render_decimal(n: u16) -> (r: String)
    ensures
        r@ == decimal_text(n as nat),
    decreases n,
{
    if n < 10 {
        digit_str(n).to_owned()
    } else {
        render_decimal(n / 10).concat(digit_str(n % 10))
    }
}

impl LatencySample {
    /// The sample as text: `<timestamp> <latency_ms>`.
    pub fn to_text(&self) -> (r: String)
        ensures
            r@ == entry_text(self@),
    {
        proof {
            reveal_strlit(" ");
        }
        let number = render_decimal(self.latency_ms);
        let r = self.timestamp.clone().concat(" ").concat(number.as_str());
        assert(" "@ =~= seq![' ']);
        r
    }
}

/// The line to write for a sample: `<timestamp> <latency_ms>` and a line
/// break.
pub fn sample_line(sample: &LatencySample) -> (r: String)
    ensures
        r@ == line_text(sample@),
{
    proof {
        reveal_strlit("\n");
    }
    let r = sample.to_text().concat("\n");
    assert("\n"@ =~= seq!['\n']);
    r
}

/// Appends a sample's line to the log text; what stood there stays.
pub fn append_sample(log: &mut String, sample: &LatencySample)
    ensures
        final(log)@ == old(log)@ + line_text(sample@),
{
    let line = sample_line(sample);
    log.append(line.as_str());
}

} // verus!
