use vstd::prelude::*;

use crate::text::{ascii_lower, ascii_lower_char, chars_of, same_run, strip_both, trim_chars};

verus! {

#[derive(Clone, Copy, Debug, PartialEq, Eq, Structural)]
pub enum AntialiasingMode {
    Default,
    Binary,
    Reduced,
}

#[derive(Clone, Copy, Debug, PartialEq, Eq, Structural)]
pub struct AntialiasingProfile {
    pub mode: AntialiasingMode,
    pub binary_threshold: u8,
    pub reduced_levels: u8,
    pub disable_subpixel_positioning: bool,
}

#[derive(Clone, Copy, Debug, PartialEq, Eq, Structural)]
pub struct AntialiasingPrefs {
    pub buffer: AntialiasingProfile,
    pub ui: AntialiasingProfile,
}

/// One profile's settings as read from the configuration file; each may be absent.
#[derive(Clone, Debug)]
pub struct ProfileConfig {
    pub mode: Option<String>,
    pub binary_threshold: Option<u8>,
    pub reduced_levels: Option<u8>,
    pub disable_subpixel_positioning: Option<bool>,
}

/// The configuration file: a section for the buffer profile and one for the interface.
#[derive(Clone, Debug)]
pub struct AntialiasingConfig {
    pub buffer: Option<ProfileConfig>,
    pub ui: Option<ProfileConfig>,
}

/// The raw values of one profile's environment variables, where they are set.
#[derive(Clone, Debug)]
pub struct EnvOverrides {
    pub mode: Option<String>,
    pub binary_threshold: Option<String>,
    pub reduced_levels: Option<String>,
    pub disable_subpixel_positioning: Option<String>,
}

pub const MIN_REDUCED_LEVELS: u8 = 2;

pub const MAX_REDUCED_LEVELS: u8 = 8;

pub open spec fn spec_default_buffer() -> AntialiasingProfile {
    AntialiasingProfile {
        mode: AntialiasingMode::Binary,
        binary_threshold: 96,
        reduced_levels: 4,
        disable_subpixel_positioning: true,
    }
}

pub open spec fn spec_default_ui() -> AntialiasingProfile {
    AntialiasingProfile {
        mode: AntialiasingMode::Default,
        binary_threshold: 96,
        reduced_levels: 4,
        disable_subpixel_positioning: false,
    }
}

/// `levels` held within the supported range of quantisation levels.
pub open spec fn clamped_levels(levels: u8) -> u8 {
    if levels < MIN_REDUCED_LEVELS {
        MIN_REDUCED_LEVELS
    } else if levels > MAX_REDUCED_LEVELS {
        MAX_REDUCED_LEVELS
    } else {
        levels
    }
}

/// The mode that a lowercase word names.
pub open spec fn mode_of_word(w: Seq<char>) -> Option<AntialiasingMode> {
    if w == "default"@ || w == "aa"@ || w == "antialias"@ || w == "antialiasing"@ {
        Some(AntialiasingMode::Default)
    } else if w == "binary"@ || w == "mono"@ || w == "monochrome"@ || w == "none"@ || w == "off"@
        || w == "disable"@ || w == "disabled"@ || w == "noaa"@ {
        Some(AntialiasingMode::Binary)
    } else if w == "reduced"@ || w == "low"@ || w == "steps"@ || w == "quantized"@ || w
        == "quantised"@ {
        Some(AntialiasingMode::Reduced)
    } else {
        None
    }
}

/// The mode that a setting's value names, ignoring surrounding whitespace and ASCII case.
pub open spec fn mode_named(v: Seq<char>) -> Option<AntialiasingMode> {
    mode_of_word(ascii_lower(strip_both(v, false)))
}

/// `p` with the settings that `c` holds.
pub open spec fn with_config(p: AntialiasingProfile, c: ProfileConfig) -> AntialiasingProfile {
    AntialiasingProfile {
        mode: match c.mode {
            Some(m) => match mode_named(m@) {
                Some(mode) => mode,
                None => p.mode,
            },
            None => p.mode,
        },
        binary_threshold: match c.binary_threshold {
            Some(t) => t,
            None => p.binary_threshold,
        },
        reduced_levels: match c.reduced_levels {
            Some(l) => clamped_levels(l),
            None => p.reduced_levels,
        },
        disable_subpixel_positioning: match c.disable_subpixel_positioning {
            Some(d) => d,
            None => p.disable_subpixel_positioning,
        },
    }
}

/// The value of a run of decimal digits.
pub open spec fn digits_value(s: Seq<char>) -> nat
    decreases s.len(),
{
    if s.len() == 0 {
        0
    } else {
        digits_value(s.drop_last()) * 10 + ((s.last() as u32) - ('0' as u32)) as nat
    }
}

pub open spec fn all_digits(s: Seq<char>) -> bool {
    forall|i: int| 0 <= i < s.len() ==> '0' <= #[trigger] s[i] <= '9'
}

/// What `str::parse::<u16>` accepts: an optional `+` and one or more decimal digits whose
/// value fits in `u16`.
pub open spec fn parsed_u16(s: Seq<char>) -> Option<u16> {
    let d = if s.len() > 0 && s[0] == '+' {
        s.drop_first()
    } else {
        s
    };
    if d.len() > 0 && all_digits(d) && digits_value(d) <= u16::MAX {
        Some(digits_value(d) as u16)
    } else {
        None
    }
}

/// Reads a `u16` written in decimal, as `str::parse::<u16>` does.
pub fn parse_u16(s: &str) -> (r: Option<u16>)
    ensures
        r == parsed_u16(s@),
{
    let v = chars_of(s);
    let start: usize = if v.len() > 0 && v[0] == '+' {
        1
    } else {
        0
    };
    let ghost d = if s@.len() > 0 && s@[0] == '+' {
        s@.drop_first()
    } else {
        s@
    };
    assert(d =~= v@.subrange(start as int, v@.len() as int));
    if start >= v.len() {
        return None;
    }
    let mut value: u32 = 0;
    let mut i: usize = start;
    while i < v.len()
        invariant
            start <= i <= v@.len(),
            d == v@.subrange(start as int, v@.len() as int),
            v@ == s@,
            d == (if s@.len() > 0 && s@[0] == '+' {
                s@.drop_first()
            } else {
                s@
            }),
            all_digits(v@.subrange(start as int, i as int)),
            value as nat == if digits_value(v@.subrange(start as int, i as int)) > 65536 {
                65536
            } else {
                digits_value(v@.subrange(start as int, i as int))
            },
        decreases v@.len() - i,
    {
        let c = v[i];
        if c < '0' || c > '9' {
            assert(d[i - start] == c);
            assert(!('0' <= d[i - start] <= '9'));
            assert(!all_digits(d));
            return None;
        }
        let ghost before = v@.subrange(start as int, i as int);
        let next = value * 10 + ((c as u32) - ('0' as u32));
        value = if next > 65536 {
            65536
        } else {
            next
        };
        i = i + 1;
        assert(v@.subrange(start as int, i as int).drop_last() =~= before);
    }
    if value > 65535 {
        None
    } else {
        Some(value as u16)
    }
}

/// `p` with the settings that the environment variables hold.
pub open spec fn with_env(p: AntialiasingProfile, e: EnvOverrides) -> AntialiasingProfile {
    AntialiasingProfile {
        mode: match e.mode {
            Some(m) => match mode_named(strip_both(m@, false)) {
                Some(mode) => mode,
                None => p.mode,
            },
            None => p.mode,
        },
        binary_threshold: match e.binary_threshold {
            Some(t) => match parsed_u16(t@) {
                Some(v) => if v > 255 {
                    255u8
                } else {
                    v as u8
                },
                None => p.binary_threshold,
            },
            None => p.binary_threshold,
        },
        reduced_levels: match e.reduced_levels {
            Some(t) => match parsed_u16(t@) {
                Some(v) => clamped_levels(v as u8),
                None => p.reduced_levels,
            },
            None => p.reduced_levels,
        },
        disable_subpixel_positioning: match e.disable_subpixel_positioning {
            Some(d) => if d@ != seq!['0'] {
                true
            } else {
                p.disable_subpixel_positioning
            },
            None => p.disable_subpixel_positioning,
        },
    }
}

fn same_chars(a: &Vec<char>, b: &Vec<char>) -> (r: bool)
    ensures
        r == (a@ == b@),
{
    if a.len() != b.len() {
        return false;
    }
    let r = same_run(a, 0, b, 0, a.len());
    assert(a@.subrange(0, a@.len() as int) =~= a@);
    assert(b@.subrange(0, b@.len() as int) =~= b@);
    r
}

fn is_word(w: &Vec<char>, lit: &str) -> (r: bool)
    ensures
        r == (w@ == lit@),
{
    let l = chars_of(lit);
    same_chars(w, &l)
}

fn lower_ascii(v: &Vec<char>) -> (r: Vec<char>)
    ensures
        r@ == ascii_lower(v@),
{
    let mut out: Vec<char> = Vec::new();
    let mut i: usize = 0;
    while i < v.len()
        invariant
            i <= v@.len(),
            out@ == ascii_lower(v@.subrange(0, i as int)),
        decreases v@.len() - i,
    {
        let c = v[i];
        let d = if 'A' <= c && c <= 'Z' {
            ((c as u8) + 32) as char
        } else {
            c
        };
        assert(d == ascii_lower_char(c));
        out.push(d);
        i = i + 1;
        assert(out@ =~= ascii_lower(v@.subrange(0, i as int)));
    }
    assert(v@.subrange(0, v@.len() as int) =~= v@);
    out
}

pub fn parse_antialiasing_mode(value: &str) -> (r: Option<AntialiasingMode>)
    ensures
        r == mode_named(value@),
{
    let v = chars_of(value);
    let t = trim_chars(&v, false);
    let w = lower_ascii(&t);
    if is_word(&w, "default") || is_word(&w, "aa") || is_word(&w, "antialias") || is_word(
        &w,
        "antialiasing",
    ) {
        Some(AntialiasingMode::Default)
    } else if is_word(&w, "binary") || is_word(&w, "mono") || is_word(&w, "monochrome") || is_word(
        &w,
        "none",
    ) || is_word(&w, "off") || is_word(&w, "disable") || is_word(&w, "disabled") || is_word(
        &w,
        "noaa",
    ) {
        Some(AntialiasingMode::Binary)
    } else if is_word(&w, "reduced") || is_word(&w, "low") || is_word(&w, "steps") || is_word(
        &w,
        "quantized",
    ) || is_word(&w, "quantised") {
        Some(AntialiasingMode::Reduced)
    } else {
        None
    }
}

pub fn clamp_reduced_levels(levels: u8) -> (r: u8)
    ensures
        r == clamped_levels(levels),
{
    if levels < MIN_REDUCED_LEVELS {
        MIN_REDUCED_LEVELS
    } else if levels > MAX_REDUCED_LEVELS {
        MAX_REDUCED_LEVELS
    } else {
        levels
    }
}

impl AntialiasingProfile {
    pub fn default_buffer() -> (r: Self)
        ensures
            r == spec_default_buffer(),
    {
        AntialiasingProfile {
            mode: AntialiasingMode::Binary,
            binary_threshold: 96,
            reduced_levels: 4,
            disable_subpixel_positioning: true,
        }
    }

    pub fn default_ui() -> (r: Self)
        ensures
            r == spec_default_ui(),
    {
        AntialiasingProfile {
            mode: AntialiasingMode::Default,
            binary_threshold: 96,
            reduced_levels: 4,
            disable_subpixel_positioning: false,
        }
    }

    /// Takes each setting that the environment variables hold and that parses.
    pub fn apply_env_overrides(&mut self, env: &EnvOverrides)
        ensures
            *final(self) == with_env(*old(self), *env),
    {
        if let Some(value) = &env.mode {
            let v = chars_of(value.as_str());
            let t = trim_chars(&v, false);
            let trimmed = crate::text::string_of(&t, 0, t.len());
            assert(t@.subrange(0, t@.len() as int) =~= t@);
            if let Some(mode) = parse_antialiasing_mode(trimmed.as_str()) {
                self.mode = mode;
            }
        }
        if let Some(value) = &env.binary_threshold {
            if let Some(v) = parse_u16(value.as_str()) {
                self.binary_threshold = if v > 255 {
                    255u8
                } else {
                    v as u8
                };
            }
        }
        if let Some(value) = &env.reduced_levels {
            if let Some(v) = parse_u16(value.as_str()) {
                self.reduced_levels = clamp_reduced_levels(v as u8);
            }
        }
        if let Some(value) = &env.disable_subpixel_positioning {
            let v = chars_of(value.as_str());
            let zero: Vec<char> = vec!['0'];
            if !same_chars(&v, &zero) {
                assert(zero@ =~= seq!['0']);
                self.disable_subpixel_positioning = true;
            } else {
                assert(zero@ =~= seq!['0']);
            }
        }
    }

    /// Takes each setting that the configuration holds.
    pub fn apply_config(&mut self, config: &ProfileConfig)
        ensures
            *final(self) == with_config(*old(self), *config),
    {
        if let Some(m) = &config.mode {
            if let Some(mode) = parse_antialiasing_mode(m.as_str()) {
                self.mode = mode;
            }
        }
        if let Some(threshold) = config.binary_threshold {
            self.binary_threshold = threshold;
        }
        if let Some(levels) = config.reduced_levels {
            self.reduced_levels = clamp_reduced_levels(levels);
        }
        if let Some(disable) = config.disable_subpixel_positioning {
            self.disable_subpixel_positioning = disable;
        }
    }
}

impl Default for AntialiasingPrefs {
    fn default() -> (r: Self)
        ensures
            r.buffer == spec_default_buffer(),
            r.ui == spec_default_ui(),
    {
        AntialiasingPrefs {
            buffer: AntialiasingProfile::default_buffer(),
            ui: AntialiasingProfile::default_ui(),
        }
    }
}

/// The defaults, then the environment's settings, then the configuration file's.
pub open spec fn loaded_profile(
    d: AntialiasingProfile,
    e: EnvOverrides,
    c: Option<ProfileConfig>,
) -> AntialiasingProfile {
    match c {
        Some(c) => with_config(with_env(d, e), c),
        None => with_env(d, e),
    }
}

/// Builds the preferences from the defaults, the environment variables of each profile and
/// the configuration file, if one was read.
pub fn load_prefs(
    buffer_env: &EnvOverrides,
    ui_env: &EnvOverrides,
    config: Option<&AntialiasingConfig>,
) -> (r: AntialiasingPrefs)
    ensures
        r.buffer == loaded_profile(
            spec_default_buffer(),
            *buffer_env,
            match config {
                Some(c) => c.buffer,
                None => None,
            },
        ),
        r.ui == loaded_profile(
            spec_default_ui(),
            *ui_env,
            match config {
                Some(c) => c.ui,
                None => None,
            },
        ),
{
    let mut prefs = AntialiasingPrefs::default();
    prefs.buffer.apply_env_overrides(buffer_env);
    prefs.ui.apply_env_overrides(ui_env);
    if let Some(config) = config {
        if let Some(buffer) = &config.buffer {
            prefs.buffer.apply_config(buffer);
        }
        if let Some(ui) = &config.ui {
            prefs.ui.apply_config(ui);
        }
    }
    prefs
}

} // verus!
