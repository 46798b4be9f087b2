use vstd::prelude::*;
use vstd::string::StringExecFns;
use crate::converter::{ability_modifier, modifier_of, DnDStatBlock};
use crate::text::same_text;

verus! {

/// The decimal digit of a value below 10.
pub open spec fn digit_char(d: nat) -> char {
    if d == 0 {
        '0'
    } else if d == 1 {
        '1'
    } else if d == 2 {
        '2'
    } else if d == 3 {
        '3'
    } else if d == 4 {
        '4'
    } else if d == 5 {
        '5'
    } else if d == 6 {
        '6'
    } else if d == 7 {
        '7'
    } else if d == 8 {
        '8'
    } else {
        '9'
    }
}

/// The decimal form of a number, without leading zeros.
pub open spec fn decimal_digits(n: nat) -> Seq<char>
    decreases n,
{
    if n < 10 {
        seq![digit_char(n)]
    } else {
        decimal_digits(n / 10).push(digit_char(n % 10))
    }
}

/// A modifier with its sign always shown: `+2`, `+0`, `-1`.
pub open spec fn signed_text(m: int) -> Seq<char> {
    if m >= 0 {
        seq!['+'] + decimal_digits(m as nat)
    } else {
        seq!['-'] + decimal_digits((-m) as nat)
    }
}

/// A rating given in quarter points, written as a decimal number: `2`,
/// `0.25`, `1.5`, `3.75`.
pub open spec fn quarters_text(q: nat) -> Seq<char> {
    let whole = decimal_digits(q / 4);
    if q % 4 == 0 {
        whole
    } else if q % 4 == 1 {
        whole + seq!['.', '2', '5']
    } else if q % 4 == 2 {
        whole + seq!['.', '5']
    } else {
        whole + seq!['.', '7', '5']
    }
}

/// `None` for no damage types, else the number of them followed by ` types`.
pub open spec fn count_text(n: nat) -> Seq<char> {
    if n == 0 {
        "None"@
    } else {
        decimal_digits(n) + " types"@
    }
}

/// An ability score followed by its modifier in parentheses.
pub open spec fn score_text(score: u8) -> Seq<char> {
    decimal_digits(score as nat) + " ("@ + signed_text(modifier_of(score as int)) + ")"@
}

/// The text form of a stat block: the six scores with their modifiers, armor
/// class, hit points, speed, challenge rating, the numbers of resistances and
/// vulnerabilities, and the number of actions.
pub open spec fn stat_block_text(b: DnDStatBlock) -> Seq<char> {
    let a = b.ability_scores;
    "\n=== D&D 5e Stat Block ===\n\nAbility Scores:\nSTR: "@ + score_text(a.strength) + "  DEX: "@
        + score_text(a.dexterity) + "  CON: "@ + score_text(a.constitution) + "\nINT: "@
        + score_text(a.intelligence) + "  WIS: "@ + score_text(a.wisdom) + "  CHA: "@ + score_text(
        a.charisma,
    ) + "\n\nArmor Class: "@ + decimal_digits(b.armor_class as nat) + "\nHit Points: "@
        + decimal_digits(b.hit_points as nat) + "\nSpeed: "@ + decimal_digits(b.speed as nat)
        + " ft.\nChallenge Rating: "@ + quarters_text(b.challenge_rating_quarters as nat)
        + "\n\nDamage Resistances: "@ + count_text(b.resistances@.len())
        + "\nDamage Vulnerabilities: "@ + count_text(b.vulnerabilities@.len()) + "\n\nActions: "@
        + decimal_digits(b.actions@.len()) + " actions available\n"@
}

/// The formats a stat block can be exported in.
#[derive(Debug, Clone, Copy, PartialEq, Eq)]
pub enum ExportFormat {
    Json,
    Text,
}

/// The digit of a value below 10, as text.
fn digit_text(d: u64) -> (r: &'static str)
    requires
        d < 10,
    ensures
        r@ == seq![digit_char(d as nat)],
{
    proof {
        reveal_strlit("0");
        reveal_strlit("1");
        reveal_strlit("2");
        reveal_strlit("3");
        reveal_strlit("4");
        reveal_strlit("5");
        reveal_strlit("6");
        reveal_strlit("7");
        reveal_strlit("8");
        reveal_strlit("9");
    }
    let r = if d == 0 {
        "0"
    } else if d == 1 {
        "1"
    } else if d == 2 {
        "2"
    } else if d == 3 {
        "3"
    } else if d == 4 {
        "4"
    } else if d == 5 {
        "5"
    } else if d == 6 {
        "6"
    } else if d == 7 {
        "7"
    } else if d == 8 {
        "8"
    } else {
        "9"
    };
    assert(r@ =~= seq![digit_char(d as nat)]);
    r
}

/// The decimal form of a number.
pub fn decimal_text(n: u64) -> (r: String)
    ensures
        r@ == decimal_digits(n as nat),
    decreases n,
{
    if n < 10 {
        String::from_str(digit_text(n))
    } else {
        let mut r = decimal_text(n / 10);
        r.append(digit_text(n % 10));
        r
    }
}

/// A modifier with its sign always shown.
fn signed_modifier_text(m: i8) -> (r: String)
    ensures
        r@ == signed_text(m as int),
{
    proof {
        reveal_strlit("+");
        reveal_strlit("-");
    }
    let mut r = if m >= 0 {
        String::from_str("+")
    } else {
        String::from_str("-")
    };
    let magnitude: u64 = if m >= 0 {
        m as u64
    } else {
        (-(m as i16)) as u64
    };
    let digits = decimal_text(magnitude);
    r.append(digits.as_str());
    assert(seq!['+'] =~= "+"@);
    assert(seq!['-'] =~= "-"@);
    r
}

/// Appends a score and its modifier.
fn append_score(out: &mut String, score: u8)
    ensures
        final(out)@ == old(out)@ + score_text(score),
{
    out.append(decimal_text(score as u64).as_str());
    out.append(" (");
    out.append(signed_modifier_text(ability_modifier(score)).as_str());
    out.append(")");
}

/// Appends a rating given in quarter points.
fn append_quarters(out: &mut String, q: u32)
    ensures
        final(out)@ == old(out)@ + quarters_text(q as nat),
{
    proof {
        reveal_strlit(".25");
        reveal_strlit(".5");
        reveal_strlit(".75");
    }
    out.append(decimal_text((q / 4) as u64).as_str());
    let rest = q % 4;
    if rest == 1 {
        out.append(".25");
        assert(seq!['.', '2', '5'] =~= ".25"@);
    } else if rest == 2 {
        out.append(".5");
        assert(seq!['.', '5'] =~= ".5"@);
    } else if rest == 3 {
        out.append(".75");
        assert(seq!['.', '7', '5'] =~= ".75"@);
    }
    assert(old(out)@ + decimal_digits((q / 4) as nat) + (if rest == 1 {
        seq!['.', '2', '5']
    } else if rest == 2 {
        seq!['.', '5']
    } else if rest == 3 {
        seq!['.', '7', '5']
    } else {
        Seq::empty()
    }) =~= old(out)@ + quarters_text(q as nat));
}

/// Appends `None` or the number of damage types.
fn append_count(out: &mut String, n: usize)
    ensures
        final(out)@ == old(out)@ + count_text(n as nat),
{
    if n == 0 {
        out.append("None");
    } else {
        out.append(decimal_text(n as u64).as_str());
        out.append(" types");
        assert(old(out)@ + decimal_digits(n as nat) + " types"@ =~= old(out)@ + (decimal_digits(
            n as nat,
        ) + " types"@));
    }
}

/// The text form of a stat block.
pub fn format_stat_block_as_text(stat_block: &DnDStatBlock) -> (r: String)
    ensures
        r@ == stat_block_text(*stat_block),
{
    let a = stat_block.ability_scores;
    let mut out = String::from_str("\n=== D&D 5e Stat Block ===\n\nAbility Scores:\nSTR: ");
    append_score(&mut out, a.strength);
    out.append("  DEX: ");
    append_score(&mut out, a.dexterity);
    out.append("  CON: ");
    append_score(&mut out, a.constitution);
    out.append("\nINT: ");
    append_score(&mut out, a.intelligence);
    out.append("  WIS: ");
    append_score(&mut out, a.wisdom);
    out.append("  CHA: ");
    append_score(&mut out, a.charisma);
    out.append("\n\nArmor Class: ");
    out.append(decimal_text(stat_block.armor_class as u64).as_str());
    out.append("\nHit Points: ");
    out.append(decimal_text(stat_block.hit_points as u64).as_str());
    out.append("\nSpeed: ");
    out.append(decimal_text(stat_block.speed as u64).as_str());
    out.append(" ft.\nChallenge Rating: ");
    append_quarters(&mut out, stat_block.challenge_rating_quarters);
    out.append("\n\nDamage Resistances: ");
    append_count(&mut out, stat_block.resistances.len());
    out.append("\nDamage Vulnerabilities: ");
    append_count(&mut out, stat_block.vulnerabilities.len());
    out.append("\n\nActions: ");
    out.append(decimal_text(stat_block.actions.len() as u64).as_str());
    out.append(" actions available\n");
    out
}

/// The export format named `format`: `json` or `text`; any other name is
/// refused with `Unsupported format`.
pub fn parse_export_format(format: &str) -> (r: Result<ExportFormat, String>)
    ensures
        format@ == "json"@ ==> r == Ok::<ExportFormat, String>(ExportFormat::Json),
        format@ == "text"@ ==> r == Ok::<ExportFormat, String>(ExportFormat::Text),
        format@ != "json"@ && format@ != "text"@ ==> r is Err && r->Err_0@
            == "Unsupported format"@,
{
    proof {
        reveal_strlit("json");
        reveal_strlit("text");
    }
    assert("json"@[0] != "text"@[0]);
    if same_text(format, "json") {
        Ok(ExportFormat::Json)
    } else if same_text(format, "text") {
        Ok(ExportFormat::Text)
    } else {
        Err(String::from_str("Unsupported format"))
    }
}

} // verus!
