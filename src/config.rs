use vstd::prelude::*;
use vstd::string::*;

verus! {

/// What the command line asks for: a named preset, or a world described by
/// its size, its number of starting cells, its seed and optional glyphs.
#[derive(Clone, Debug, PartialEq)]
pub enum Config {
    Preset { key: String },
    WorldDef {
        width: u32,
        height: u32,
        num_starting_cells: u32,
        seed: u32,
        dead_char: Option<String>,
        alive_char: Option<String>,
    },
}

pub const HELP_HEAD: &'static str = "try: gol\ntry: gol ";

pub const HELP_TAIL: &'static str = "\ntry: gol [width height num_starting_cells seed display_dead display_alive] (e.g: gol 40 40 40 4045)\nWhen providing your own display characters \n\n$ gol 40 40 40 4045 . #\n\nYou may need to place your characters in double-quotes.\n\n$ gol 40 40 40 4045 \"-\" \"#\"";

pub const UNKNOWN_PRESET: &'static str = "Unknown preset, choose from ";

pub const WRONG_COUNT: &'static str = "Expected at least 4 or 6 args but got ";

pub const UNPARSABLE: &'static str = "Unable to parse parameters, please try again.";

/// The text that `{:?}` gives for a list of strings.
pub uninterp spec fn debug_list_text(items: Seq<Seq<char>>) -> Seq<char>;

/// Relies on std's `Debug` for `Vec<&str>` (`format!("{:?}", ..)`): the text
/// depends on the strings alone.
#[verifier::external_body]
fn debug_list(items: &Vec<&str>) -> (r: String)
    ensures
        r@ == debug_list_text(items@.map_values(|s: &str| s@)),
{
    format!("{:?}", items)
}

pub open spec fn is_digit(c: char) -> bool {
    48 <= (c as u32) <= 57
}

/// The value of a string of decimal digits.
pub open spec fn digits_value(s: Seq<char>) -> nat
    decreases s.len(),
{
    if s.len() == 0 {
        0
    } else {
        digits_value(s.drop_last()) * 10 + ((s.last() as u32) - 48) as nat
    }
}

/// `s` without one leading `+`, if it has one.
pub open spec fn unsigned_part(s: Seq<char>) -> Seq<char> {
    if s.len() > 0 && s[0] == '+' {
        s.drop_first()
    } else {
        s
    }
}

pub open spec fn all_digits(d: Seq<char>) -> bool {
    forall|i: int| 0 <= i < d.len() ==> is_digit(#[trigger] d[i])
}

/// What `str::parse::<u32>` accepts: an optional `+` and then one or more
/// decimal digits whose value fits in a `u32`.
pub open spec fn parse_u32_spec(s: Seq<char>) -> Option<u32> {
    let d = unsigned_part(s);
    if d.len() > 0 && all_digits(d) && digits_value(d) <= u32::MAX {
        Some(digits_value(d) as u32)
    } else {
        None
    }
}

/// The decimal digit `d`.
pub open spec fn digit_char(d: nat) -> char {
    ((d + 48) as u32) as char
}

/// `n` written in decimal, without leading zeros.
pub open spec fn decimal_text(n: nat) -> Seq<char>
    decreases n,
{
    if n < 10 {
        seq![digit_char(n)]
    } else {
        decimal_text(n / 10).push(digit_char(n % 10))
    }
}

proof fn lemma_prefix_value_le(s: Seq<char>, i: int)
    requires
        0 <= i <= s.len(),
        all_digits(s),
    ensures
        digits_value(s.take(i)) <= digits_value(s),
    decreases s.len(),
{
    if i == s.len() {
        assert(s.take(i) =~= s);
    } else {
        lemma_prefix_value_le(s.drop_last(), i);
        assert(s.drop_last().take(i) =~= s.take(i));
    }
}

/// Parses a decimal `u32` as `str::parse` does.
pub fn parse_u32(s: &str) -> (r: Option<u32>)
    ensures
        r == parse_u32_spec(s@),
{
    let len = s.unicode_len();
    let ghost d = unsigned_part(s@);
    let start: usize = if len > 0 && s.get_char(0) == '+' {
        1
    } else {
        0
    };
    if start == len {
        return None;
    }
    let mut value: u64 = 0;
    let mut i: usize = start;
    while i < len
        invariant
            len == s@.len(),
            start <= i <= len,
            start < len,
            d == s@.subrange(start as int, len as int),
            d == unsigned_part(s@),
            forall|j: int| 0 <= j < i - start ==> is_digit(#[trigger] d[j]),
            value == digits_value(d.take(i - start)),
            value <= u32::MAX,
        decreases len - i,
    {
        let c = s.get_char(i);
        assert(c == d[i - start]);
        if !((c as u32) >= 48 && (c as u32) <= 57) {
            assert(!is_digit(d[i - start]));
            return None;
        }
        assert(d.take(i - start + 1).drop_last() =~= d.take(i - start));
        assert(d.take(i - start + 1).last() == c);
        let next = value * 10 + ((c as u32) - 48) as u64;
        if next > u32::MAX as u64 {
            proof {
                assert(digits_value(d.take(i - start + 1)) == next);
                if all_digits(d) {
                    lemma_prefix_value_le(d, i - start + 1);
                }
            }
            return None;
        }
        value = next;
        i += 1;
    }
    assert(d.take(len - start) =~= d);
    Some(value as u32)
}

fn digit_str(d: usize) -> (r: &'static str)
    requires
        d < 10,
    ensures
        r@ == seq![digit_char(d as nat)],
{
    proof {
        reveal_strlit("0");
        reveal_strlit("1");
        reveal_strlit("2");
        reveal_strlit("3");
        reveal_strlit("4");
        reveal_strlit("5");
        reveal_strlit("6");
        reveal_strlit("7");
        reveal_strlit("8");
        reveal_strlit("9");
    }
    if d == 0 {
        "0"
    } else if d == 1 {
        "1"
    } else if d == 2 {
        "2"
    } else if d == 3 {
        "3"
    } else if d == 4 {
        "4"
    } else if d == 5 {
        "5"
    } else if d == 6 {
        "6"
    } else if d == 7 {
        "7"
    } else if d == 8 {
        "8"
    } else {
        "9"
    }
}

/// `n` in decimal.
pub fn decimal(n: usize) -> (r: String)
    ensures
        r@ == decimal_text(n as nat),
    decreases n,
{
    if n < 10 {
        digit_str(n).to_owned()
    } else {
        decimal(n / 10).concat(digit_str(n % 10))
    }
}

/// The four numbers of a world description, when all four parse.
pub open spec fn parse_params(w: Seq<char>, h: Seq<char>, n: Seq<char>, s: Seq<char>) -> Option<
    (u32, u32, u32, u32),
> {
    match (parse_u32_spec(w), parse_u32_spec(h), parse_u32_spec(n), parse_u32_spec(s)) {
        (Some(a), Some(b), Some(c), Some(d)) => Some((a, b, c, d)),
        _ => None,
    }
}

/// The names of the presets, as text.
pub open spec fn preset_names(presets: Seq<&str>) -> Seq<Seq<char>> {
    presets.map_values(|p: &str| p@)
}

/// The text of the help message for the given presets.
pub open spec fn help_text(presets: Seq<&str>) -> Seq<char> {
    HELP_HEAD@ + debug_list_text(preset_names(presets)) + HELP_TAIL@
}

/// The text of the error for a preset name that is not in `presets`.
pub open spec fn unknown_preset_text(presets: Seq<&str>) -> Seq<char> {
    UNKNOWN_PRESET@ + debug_list_text(preset_names(presets)) + "."@
}

/// What `Config::new` gives for a world description: the four numbers and
/// the glyphs, when they parse.
pub open spec fn world_def_result(args: Seq<String>, r: Result<Config, String>) -> bool {
    match parse_params(args[1]@, args[2]@, args[3]@, args[4]@) {
        Some(p) => r matches Ok(
            Config::WorldDef { width, height, num_starting_cells, seed, dead_char, alive_char },
        ) && (width, height, num_starting_cells, seed) == p && (args.len() == 5 ==> dead_char is None
            && alive_char is None) && (args.len() == 7 ==> dead_char == Some(args[5]) && alive_char
            == Some(args[6])),
        None => r matches Err(e) && e@ == UNPARSABLE@,
    }
}

fn lists_preset(presets: &Vec<&'static str>, name: &String) -> (r: bool)
    ensures
        r == preset_names(presets@).contains(name@),
{
    let mut i: usize = 0;
    while i < presets.len()
        invariant
            i <= presets@.len(),
            forall|j: int| 0 <= j < i ==> preset_names(presets@)[j] != name@,
        decreases presets@.len() - i,
    {
        let candidate = presets[i].to_owned();
        if candidate == *name {
            assert(preset_names(presets@)[i as int] == name@);
            return true;
        }
        i += 1;
    }
    false
}

impl Config {
    /// The four numbers of a world description, or an error when any of
    /// them does not parse.
    pub fn parse_args(w: &String, h: &String, n: &String, s: &String) -> (r: Result<
        (u32, u32, u32, u32),
        String,
    >)
        ensures
            match parse_params(w@, h@, n@, s@) {
                Some(p) => r == Ok::<(u32, u32, u32, u32), String>(p),
                None => r matches Err(e) && e@ == UNPARSABLE@,
            },
    {
        match (parse_u32(w.as_str()), parse_u32(h.as_str()), parse_u32(n.as_str()), parse_u32(s.as_str())) {
            (Some(wu), Some(hu), Some(nu), Some(su)) => Ok((wu, hu, nu, su)),
            _ => Err(UNPARSABLE.to_owned()),
        }
    }

    /// Reads the command line `args` (the program's name first): no
    /// argument gives `default_world_def`; one gives the help text or a
    /// preset of `presets`; four give a world description and six one with
    /// glyphs. Anything else is an error.
    pub fn new(args: Vec<String>, default_world_def: Config, presets: Vec<&'static str>) -> (r: Result<
        Config,
        String,
    >)
        requires
            args@.len() >= 1,
        ensures
            args@.len() == 1 ==> r == Ok::<Config, String>(default_world_def),
            args@.len() == 2 && args@[1]@ == "help"@ ==> (r matches Err(e)
                && e@ == help_text(presets@)),
            args@.len() == 2 && args@[1]@ != "help"@ && preset_names(presets@).contains(args@[1]@)
                ==> r == Ok::<Config, String>(Config::Preset { key: args@[1] }),
            args@.len() == 2 && args@[1]@ != "help"@ && !preset_names(presets@).contains(args@[1]@)
                ==> (r matches Err(e) && e@ == unknown_preset_text(presets@)),
            args@.len() == 5 || args@.len() == 7 ==> world_def_result(args@, r),
            !(args@.len() == 1 || args@.len() == 2 || args@.len() == 5 || args@.len() == 7) ==> (r matches Err(
                e,
            ) && e@ == WRONG_COUNT@ + decimal_text((args@.len() - 1) as nat)),
    {
        let count = args.len();
        if count == 1 {
            Ok(default_world_def)
        } else if count == 2 {
            let preset = &args[1];
            let help = "help".to_owned();
            if *preset == help {
                let listed = debug_list(&presets);
                Err(HELP_HEAD.to_owned().concat(listed.as_str()).concat(HELP_TAIL))
            } else if lists_preset(&presets, preset) {
                Ok(Config::Preset { key: preset.clone() })
            } else {
                let listed = debug_list(&presets);
                Err(UNKNOWN_PRESET.to_owned().concat(listed.as_str()).concat("."))
            }
        } else if count == 5 || count == 7 {
            match Config::parse_args(&args[1], &args[2], &args[3], &args[4]) {
                Ok((width, height, num_starting_cells, seed)) => {
                    let (dead_char, alive_char) = if count == 7 {
                        (Some(args[5].clone()), Some(args[6].clone()))
                    } else {
                        (None, None)
                    };
                    Ok(Config::WorldDef { width, height, num_starting_cells, seed, dead_char, alive_char })
                },
                Err(e) => Err(e),
            }
        } else {
            Err(WRONG_COUNT.to_owned().concat(decimal(count - 1).as_str()))
        }
    }
}

} // verus!
