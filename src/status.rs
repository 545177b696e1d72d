use vstd::prelude::*;
use vstd::string::StringExecFns;

verus! {

/// The decimal digits of `n`, most significant first, without padding.
pub open spec fn decimal_of(n: nat) -> Seq<char>
    decreases n,
{
    if n < 10 {
        seq![(('0' as u8) + n as u8) as char]
    } else {
        decimal_of(n / 10) + seq![(('0' as u8) + (n % 10) as u8) as char]
    }
}

/// Relies on `u64`'s `Display` (through `to_string`): plain decimal digits.
#[verifier::external_body]
fn decimal(n: u64) -> (r: String)
    ensures
        r@ == decimal_of(n as nat),
{
    n.to_string()
}

/// Words joined by single spaces.
pub open spec fn join_words(ws: Seq<Seq<char>>) -> Seq<char>
    decreases ws.len(),
{
    if ws.len() == 0 {
        Seq::empty()
    } else if ws.len() == 1 {
        ws[0]
    } else {
        join_words(ws.drop_last()) + " "@ + ws.last()
    }
}

/// The word for `n` of a unit, or none when `n` is zero.
pub open spec fn word_of(n: u64, unit: Seq<char>) -> Seq<Seq<char>> {
    if n != 0 {
        seq![decimal_of(n as nat) + unit]
    } else {
        Seq::empty()
    }
}

/// The non-zero parts of a duration of `s` seconds, largest unit first.
pub open spec fn duration_words(s: u64) -> Seq<Seq<char>> {
    let days = (s / 86400) as u64;
    let hours = ((s % 86400) / 3600) as u64;
    let minutes = ((s % 3600) / 60) as u64;
    let seconds = (s % 60) as u64;
    word_of(days, " days"@) + word_of(hours, " hours"@) + word_of(minutes, " minutes"@) + word_of(
        seconds,
        " seconds"@,
    )
}

fn add_word(out: &mut String, words: Ghost<Seq<Seq<char>>>, any: bool, n: u64, unit: &str) -> (r: bool)
    requires
        old(out)@ == join_words(words@),
        any == (words@.len() > 0),
    ensures
        final(out)@ == join_words(words@ + word_of(n, unit@)),
        r == ((words@ + word_of(n, unit@)).len() > 0),
{
    if n != 0 {
        let w = decimal(n);
        let ghost ws = words@ + word_of(n, unit@);
        assert(ws.drop_last() =~= words@);
        if any {
            out.append(" ");
        }
        out.append(w.as_str());
        out.append(unit);
        true
    } else {
        assert(words@ + word_of(n, unit@) =~= words@);
        any
    }
}

/// A duration in seconds as its non-zero days, hours, minutes and seconds,
/// separated by spaces (`"1 days 1 hours 1 minutes 1 seconds"`); empty for
/// zero.
pub fn timeify(seconds: u64) -> (r: String)
    ensures
        r@ == join_words(duration_words(seconds)),
{
    let days = seconds / 86400;
    let hours = (seconds % 86400) / 3600;
    let minutes = (seconds % 3600) / 60;
    let secs = seconds % 60;
    assert((seconds % 86400) % 3600 == seconds % 3600) by (nonlinear_arith);
    let mut out = String::new();
    proof {
        reveal_strlit(" days");
        reveal_strlit(" hours");
        reveal_strlit(" minutes");
        reveal_strlit(" seconds");
    }
    let any = add_word(&mut out, Ghost(Seq::empty()), false, days, " days");
    let ghost w1 = Seq::<Seq<char>>::empty() + word_of(days, " days"@);
    let any = add_word(&mut out, Ghost(w1), any, hours, " hours");
    let ghost w2 = w1 + word_of(hours, " hours"@);
    let any = add_word(&mut out, Ghost(w2), any, minutes, " minutes");
    let ghost w3 = w2 + word_of(minutes, " minutes"@);
    let _ = add_word(&mut out, Ghost(w3), any, secs, " seconds");
    assert(w3 + word_of(secs, " seconds"@) =~= duration_words(seconds));
    out
}

} // verus!
