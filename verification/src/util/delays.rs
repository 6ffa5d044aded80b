use vstd::prelude::*;
use vstd::string::*;
use crate::icon::DELAY_UNITS_PER_TICK;
use crate::util::text::{decimal, decimal_string, digit_char, joined};

verus! {

/// A delay in ticks, written in decimal: the whole ticks, and behind a
/// point the thousandths of a tick without zeros at their end, where there
/// are any.
pub open spec fn delay_text(units: nat) -> Seq<char> {
    let ticks = units / (DELAY_UNITS_PER_TICK as nat);
    let rest = units % (DELAY_UNITS_PER_TICK as nat);
    let tenths = digit_char(rest / 100);
    let hundredths = digit_char((rest / 10) % 10);
    let thousandths = digit_char(rest % 10);
    if rest == 0 {
        decimal(ticks)
    } else if rest % 10 != 0 {
        decimal(ticks) + seq!['.', tenths, hundredths, thousandths]
    } else if rest % 100 != 0 {
        decimal(ticks) + seq!['.', tenths, hundredths]
    } else {
        decimal(ticks) + seq!['.', tenths]
    }
}

/// Each delay of a list as text, with `suffix` behind it.
pub open spec fn delay_texts(delays: Seq<nat>, suffix: Seq<char>) -> Seq<Seq<char>> {
    delays.map_values(|units: nat| delay_text(units) + suffix)
}

/// A list of delays as text: the delays in ticks, each with `suffix` behind
/// it, separated by a comma and a blank, in square brackets.
pub open spec fn spec_text_delays(delays: Seq<nat>, suffix: Seq<char>) -> Seq<char> {
    seq!['['] + joined(delay_texts(delays, suffix), seq![',', ' ']) + seq![']']
}

/// Writes a delay in ticks.
pub fn format_delay(units: u32) -> (r: String)
    ensures
        r@ == delay_text(units as nat),
{
    let ticks: u32 = units / DELAY_UNITS_PER_TICK;
    let rest: u32 = units % DELAY_UNITS_PER_TICK;
    let mut r = decimal_string(ticks as u128);
    if rest != 0 {
        proof {
            reveal_strlit(".");
        }
        r.append(".");
        let tenths = decimal_string((rest / 100) as u128);
        let hundredths = decimal_string(((rest / 10) % 10) as u128);
        let thousandths = decimal_string((rest % 10) as u128);
        r.append(tenths.as_str());
        if rest % 100 != 0 {
            r.append(hundredths.as_str());
        }
        if rest % 10 != 0 {
            r.append(thousandths.as_str());
        }
        assert(r@ =~= delay_text(units as nat));
    }
    r
}

/// Writes a list of delays as text.
pub fn text_delays(textify: &Vec<u32>, suffix: &str) -> (r: String)
    ensures
        r@ == spec_text_delays(crate::icon::delay_values(textify@), suffix@),
{
    proof {
        reveal_strlit("[");
        reveal_strlit("]");
        reveal_strlit(", ");
    }
    let ghost wanted = delay_texts(crate::icon::delay_values(textify@), suffix@);
    let mut r = String::from_str("[");
    let mut i: usize = 0;
    while i < textify.len()
        invariant
            i <= textify@.len(),
            wanted == delay_texts(crate::icon::delay_values(textify@), suffix@),
            r@ == seq!['['] + joined(wanted.take(i as int), ", "@),
            ", "@ == seq![',', ' '],
        decreases textify@.len() - i,
    {
        let ghost so_far = wanted.take(i as int);
        let ghost next = wanted.take(i + 1);
        assert(next.drop_last() =~= so_far);
        assert(next.last() == delay_text(textify@[i as int] as nat) + suffix@);
        if i > 0 {
            r.append(", ");
        }
        let text = format_delay(textify[i]);
        r.append(text.as_str());
        r.append(suffix);
        assert(r@ =~= seq!['['] + joined(next, ", "@));
        i += 1;
    }
    assert(wanted.take(textify@.len() as int) =~= wanted);
    r.append("]");
    assert(", "@ =~= seq![',', ' ']);
    r
}

} // verus!
