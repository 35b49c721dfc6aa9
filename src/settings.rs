//! The run's settings, read one `key=value` line at a time.
use crate::bignum::{all_digits, decimal_val, digit_val, is_digit, parses_decimal, string_of_chars, unsigned_body};
use crate::supervisor::{compute_mode_of, ComputeMode};
use vstd::prelude::*;

verus! {

/// The text without its leading and trailing whitespace, as `str::trim` gives it.
pub uninterp spec fn trim_of(s: Seq<char>) -> Seq<char>;

/// Relies on `str::trim`: the result depends on the characters alone.
#[verifier::external_body]
fn trim_chars(s: &str) -> (r: Vec<char>)
    ensures
        r@ == trim_of(s@),
{
    s.trim().chars().collect()
}

/// Relies on `u64::from_str`: an optional `+`, then decimal digits whose value
/// fits in 64 bits.
#[verifier::external_body]
fn parse_u64(s: &str) -> (r: Option<u64>)
    ensures
        r.is_some() <==> (parses_decimal(s@) && decimal_val(unsigned_body(s@)) <= u64::MAX),
        r.is_some() ==> r.unwrap() as nat == decimal_val(unsigned_body(s@)),
{
    match s.parse::<u64>() {
        Ok(v) => Some(v),
        Err(_) => None,
    }
}

/// Position of the first `c` in `s`, or the length of `s` when there is none.
pub open spec fn first_index(s: Seq<char>, c: char) -> nat
    decreases s.len(),
{
    if s.len() == 0 {
        0
    } else if s[0] == c {
        0
    } else {
        1 + first_index(s.drop_first(), c)
    }
}

proof fn lemma_first_index(s: Seq<char>, c: char, i: int)
    requires
        0 <= i <= s.len(),
        forall|j: int| 0 <= j < i ==> s[j] != c,
        i == s.len() || s[i] == c,
    ensures
        first_index(s, c) == i,
    decreases i,
{
    if i > 0 {
        lemma_first_index(s.drop_first(), c, i - 1);
    }
}

/// Finds the first `c` in `s`.
fn find_char(s: &Vec<char>, c: char) -> (r: usize)
    ensures
        r == first_index(s@, c),
        r <= s@.len(),
{
    let mut i: usize = 0;
    while i < s.len() && s[i] != c
        invariant
            i <= s@.len(),
            forall|j: int| 0 <= j < i ==> s@[j] != c,
        decreases s@.len() - i,
    {
        i = i + 1;
    }
    proof {
        lemma_first_index(s@, c, i as int);
    }
    i
}

/// The characters of `s` from `lo` up to `hi`.
fn slice_chars(s: &Vec<char>, lo: usize, hi: usize) -> (r: Vec<char>)
    requires
        lo <= hi <= s@.len(),
    ensures
        r@ == s@.subrange(lo as int, hi as int),
{
    let mut r: Vec<char> = Vec::new();
    let mut i: usize = lo;
    while i < hi
        invariant
            lo <= i <= hi,
            hi <= s@.len(),
            r@ =~= s@.subrange(lo as int, i as int),
        decreases hi - i,
    {
        r.push(s[i]);
        i = i + 1;
    }
    r
}

/// Whether the characters equal those of a text.
fn chars_are(a: &Vec<char>, text: &str) -> (r: bool)
    ensures
        r == (a@ == text@),
{
    let n = text.unicode_len();
    if a.len() != n {
        return false;
    }
    let mut i: usize = 0;
    while i < n
        invariant
            i <= n,
            n == a@.len(),
            n == text@.len(),
            forall|j: int| 0 <= j < i ==> a@[j] == text@[j],
        decreases n - i,
    {
        if a[i] != text.get_char(i) {
            return false;
        }
        i = i + 1;
    }
    assert(a@ =~= text@);
    true
}

/// Whether two characters are equal once ASCII letters are lowercased; `t`
/// is already lowercase.
pub open spec fn same_ignoring_ascii_case(c: char, t: char) -> bool {
    c == t || ('a' <= t && t <= 'z' && (c as u32) == (t as u32) - 32)
}

pub open spec fn true_word() -> Seq<char> {
    seq!['t', 'r', 'u', 'e']
}

/// Whether the text is `true` in any ASCII case.
pub open spec fn is_true_text(s: Seq<char>) -> bool {
    s.len() == 4 && forall|i: int| 0 <= i < 4 ==> same_ignoring_ascii_case(#[trigger] s[i], true_word()[i])
}

fn true_text(s: &Vec<char>) -> (r: bool)
    ensures
        r == is_true_text(s@),
{
    if s.len() != 4 {
        return false;
    }
    let word = vec!['t', 'r', 'u', 'e'];
    assert(word@ =~= true_word());
    let mut i: usize = 0;
    while i < 4
        invariant
            i <= 4,
            s@.len() == 4,
            word@ == true_word(),
            forall|j: int| 0 <= j < i ==> same_ignoring_ascii_case(#[trigger] s@[j], true_word()[j]),
        decreases 4 - i,
    {
        let c = s[i];
        let t = word[i];
        if !(c == t || ('a' <= t && t <= 'z' && (c as u32) == (t as u32) - 32)) {
            return false;
        }
        i = i + 1;
    }
    true
}

/// The first six digits after the point, padded with zeros.
pub open spec fn six_digits(f: Seq<char>) -> Seq<char> {
    Seq::new(6, |i: int| if i < f.len() { f[i] } else { '0' })
}

/// A ratio written `digits[.digits]` (or `.digits`) with at most twelve digits
/// before the point, in millionths; digits past the sixth after the point are
/// dropped.
pub open spec fn ratio_ppm_of(s: Seq<char>) -> Option<nat> {
    let p = first_index(s, '.') as int;
    let int_part = s.subrange(0, p);
    let frac = if p < s.len() { s.subrange(p + 1, s.len() as int) } else { Seq::empty() };
    if all_digits(int_part) && all_digits(frac) && int_part.len() + frac.len() > 0
        && int_part.len() <= 12 {
        Some(decimal_val(int_part) * 1_000_000 + decimal_val(six_digits(frac)))
    } else {
        None
    }
}

pub open spec fn pow10(n: nat) -> nat
    decreases n,
{
    if n == 0 {
        1
    } else {
        10 * pow10((n - 1) as nat)
    }
}

proof fn lemma_pow10_monotonic(a: nat, b: nat)
    requires
        a <= b,
    ensures
        pow10(a) <= pow10(b),
    decreases b,
{
    if a < b {
        lemma_pow10_monotonic(a, (b - 1) as nat);
    }
}

proof fn lemma_decimal_val_bound(s: Seq<char>)
    requires
        all_digits(s),
    ensures
        decimal_val(s) < pow10(s.len()),
    decreases s.len(),
{
    if s.len() > 0 {
        let l = s.drop_last();
        assert(all_digits(l)) by {
            assert forall|i: int| 0 <= i < l.len() implies is_digit(#[trigger] l[i]) by {
                assert(l[i] == s[i]);
            }
        }
        lemma_decimal_val_bound(l);
        assert(is_digit(s[s.len() - 1]));
    }
}

/// Reads the digits as a number.
fn digits_value(s: &Vec<char>) -> (r: u64)
    requires
        all_digits(s@),
        s@.len() <= 12,
    ensures
        r as nat == decimal_val(s@),
{
    let mut acc: u64 = 0;
    let mut i: usize = 0;
    while i < s.len()
        invariant
            i <= s@.len(),
            s@.len() <= 12,
            all_digits(s@),
            acc as nat == decimal_val(s@.take(i as int)),
            acc < pow10(i as nat),
        decreases s@.len() - i,
    {
        let ghost pre = s@.take(i as int);
        assert(s@.take(i + 1).drop_last() =~= pre);
        assert(is_digit(s@[i as int]));
        let d = (s[i] as u32 - '0' as u32) as u64;
        proof {
            lemma_pow10_monotonic((i + 1) as nat, 12);
            reveal_with_fuel(pow10, 13);
        }
        acc = acc * 10 + d;
        i = i + 1;
    }
    assert(s@.take(s@.len() as int) =~= s@);
    acc
}

/// Whether every character is a decimal digit.
fn digits_only(s: &Vec<char>) -> (r: bool)
    ensures
        r == all_digits(s@),
{
    let mut i: usize = 0;
    while i < s.len()
        invariant
            i <= s@.len(),
            forall|j: int| 0 <= j < i ==> is_digit(#[trigger] s@[j]),
        decreases s@.len() - i,
    {
        if !('0' <= s[i] && s[i] <= '9') {
            return false;
        }
        i = i + 1;
    }
    true
}

/// Reads a ratio in millionths (see `ratio_ppm_of`).
fn parse_ratio_ppm(s: &Vec<char>) -> (r: Option<u64>)
    ensures
        match ratio_ppm_of(s@) {
            Some(v) => r == Some(v as u64) && v <= u64::MAX,
            None => r.is_none(),
        },
{
    let p = find_char(s, '.');
    let int_part = slice_chars(s, 0, p);
    let frac = if p < s.len() {
        slice_chars(s, p + 1, s.len())
    } else {
        Vec::new()
    };
    assert(frac@ =~= (if p < s@.len() {
        s@.subrange(p + 1, s@.len() as int)
    } else {
        Seq::<char>::empty()
    }));
    if !digits_only(&int_part) || !digits_only(&frac) || int_part.len() + frac.len() == 0
        || int_part.len() > 12 {
        return None;
    }
    let ip = digits_value(&int_part);
    let mut six: Vec<char> = Vec::new();
    let mut i: usize = 0;
    while i < 6
        invariant
            i <= 6,
            six@ =~= six_digits(frac@).take(i as int),
        decreases 6 - i,
    {
        if i < frac.len() {
            six.push(frac[i]);
        } else {
            six.push('0');
        }
        i = i + 1;
    }
    assert(six@ =~= six_digits(frac@));
    assert(all_digits(six@)) by {
        assert forall|j: int| 0 <= j < six@.len() implies is_digit(#[trigger] six@[j]) by {
            if j < frac@.len() {
                assert(is_digit(frac@[j]));
            }
        }
    }
    let fp = digits_value(&six);
    proof {
        lemma_decimal_val_bound(int_part@);
        lemma_decimal_val_bound(six@);
        lemma_pow10_monotonic(int_part@.len(), 12);
        reveal_with_fuel(pow10, 13);
    }
    Some(ip * 1_000_000 + fp)
}

/// The settings as plain values.
pub struct SettingsView {
    pub start: Seq<char>,
    pub end: Seq<char>,
    pub cores: usize,
    pub mode: Seq<char>,
    pub compute_mode: ComputeMode,
    pub gpu_device_id: usize,
    pub gpu_batch_size: usize,
    pub cpu_gpu_ratio_ppm: u64,
    pub switch_interval: u64,
    pub subinterval_ppm: u64,
    pub stop_on_find: bool,
    pub puzzle_file: Seq<char>,
    pub smart_jump: bool,
    pub wrap_around: bool,
    pub checkpoint_interval: u64,
    pub telegram_bot_token: Option<Seq<char>>,
    pub telegram_chat_id: Option<Seq<char>>,
}

/// What the run is configured with.
pub struct Settings {
    pub start: String,
    pub end: String,
    /// Workers to run; zero means one per core.
    pub cores: usize,
    pub mode: String,
    pub compute_mode: ComputeMode,
    pub gpu_device_id: usize,
    pub gpu_batch_size: usize,
    /// Share of direct-lane workers in a mixed run, in millionths.
    pub cpu_gpu_ratio_ppm: u64,
    pub switch_interval: u64,
    /// Width of the random mode's sub-interval, in millionths of the partition.
    pub subinterval_ppm: u64,
    pub stop_on_find: bool,
    pub puzzle_file: String,
    pub smart_jump: bool,
    pub wrap_around: bool,
    pub checkpoint_interval: u64,
    pub telegram_bot_token: Option<String>,
    pub telegram_chat_id: Option<String>,
}

pub open spec fn opt_view(o: Option<String>) -> Option<Seq<char>> {
    match o {
        Some(s) => Some(s@),
        None => None,
    }
}

impl View for Settings {
    type V = SettingsView;

    open spec fn view(&self) -> SettingsView {
        SettingsView {
            start: self.start@,
            end: self.end@,
            cores: self.cores,
            mode: self.mode@,
            compute_mode: self.compute_mode,
            gpu_device_id: self.gpu_device_id,
            gpu_batch_size: self.gpu_batch_size,
            cpu_gpu_ratio_ppm: self.cpu_gpu_ratio_ppm,
            switch_interval: self.switch_interval,
            subinterval_ppm: self.subinterval_ppm,
            stop_on_find: self.stop_on_find,
            puzzle_file: self.puzzle_file@,
            smart_jump: self.smart_jump,
            wrap_around: self.wrap_around,
            checkpoint_interval: self.checkpoint_interval,
            telegram_bot_token: opt_view(self.telegram_bot_token),
            telegram_chat_id: opt_view(self.telegram_chat_id),
        }
    }
}

/// A count read by `u64::from_str` that also fits in `usize`.
pub open spec fn count_of(s: Seq<char>) -> Option<nat> {
    if parses_decimal(s) && decimal_val(unsigned_body(s)) <= usize::MAX {
        Some(decimal_val(unsigned_body(s)))
    } else {
        None
    }
}

/// A 64-bit number read by `u64::from_str`.
pub open spec fn u64_of(s: Seq<char>) -> Option<nat> {
    if parses_decimal(s) && decimal_val(unsigned_body(s)) <= u64::MAX {
        Some(decimal_val(unsigned_body(s)))
    } else {
        None
    }
}

/// The settings after one `key = value` pair; unknown keys and values that
/// do not read are ignored, as are empty Telegram values.
pub open spec fn apply_setting(v: SettingsView, key: Seq<char>, value: Seq<char>) -> SettingsView {
    if key == "start"@ {
        SettingsView { start: value, ..v }
    } else if key == "end"@ {
        SettingsView { end: value, ..v }
    } else if key == "cores"@ {
        match count_of(value) {
            Some(n) => SettingsView { cores: n as usize, ..v },
            None => v,
        }
    } else if key == "mode"@ {
        SettingsView { mode: value, ..v }
    } else if key == "compute_mode"@ {
        match compute_mode_of(value) {
            Some(m) => SettingsView { compute_mode: m, ..v },
            None => v,
        }
    } else if key == "gpu_device_id"@ {
        match count_of(value) {
            Some(n) => SettingsView { gpu_device_id: n as usize, ..v },
            None => v,
        }
    } else if key == "gpu_batch_size"@ {
        match count_of(value) {
            Some(n) => SettingsView { gpu_batch_size: n as usize, ..v },
            None => v,
        }
    } else if key == "cpu_gpu_ratio"@ {
        match ratio_ppm_of(value) {
            Some(n) => SettingsView { cpu_gpu_ratio_ppm: n as u64, ..v },
            None => v,
        }
    } else if key == "switch_interval"@ {
        match u64_of(value) {
            Some(n) => SettingsView { switch_interval: n as u64, ..v },
            None => v,
        }
    } else if key == "subinterval_ratio"@ {
        match ratio_ppm_of(value) {
            Some(n) => SettingsView { subinterval_ppm: n as u64, ..v },
            None => v,
        }
    } else if key == "stop_on_find"@ {
        SettingsView { stop_on_find: is_true_text(value), ..v }
    } else if key == "puzzle_file"@ {
        SettingsView { puzzle_file: value, ..v }
    } else if key == "smart_jump"@ {
        SettingsView { smart_jump: is_true_text(value), ..v }
    } else if key == "wrap_around"@ {
        SettingsView { wrap_around: is_true_text(value), ..v }
    } else if key == "checkpoint_interval"@ {
        match u64_of(value) {
            Some(n) => SettingsView { checkpoint_interval: n as u64, ..v },
            None => v,
        }
    } else if key == "telegram_bot_token"@ && value.len() > 0 {
        SettingsView { telegram_bot_token: Some(value), ..v }
    } else if key == "telegram_chat_id"@ && value.len() > 0 {
        SettingsView { telegram_chat_id: Some(value), ..v }
    } else {
        v
    }
}

/// The target a line of the target list names: its trimmed text, unless that
/// is empty or starts with `#`.
pub fn target_of_line(line: &str) -> (r: Option<String>)
    ensures
        ({
            let t = trim_of(line@);
            if t.len() == 0 || t[0] == '#' {
                r.is_none()
            } else {
                r.is_some() && r.unwrap()@ == t
            }
        }),
{
    let t = trim_chars(line);
    if t.len() == 0 || t[0] == '#' {
        None
    } else {
        Some(string_of_chars(&t))
    }
}

/// The settings after one line of a configuration file: blank lines, lines
/// starting with `#` and lines without `=` change nothing; otherwise the
/// trimmed text before the first `=` is the key and the trimmed rest the value.
pub open spec fn line_setting(v: SettingsView, line: Seq<char>) -> SettingsView {
    let t = trim_of(line);
    if t.len() == 0 || t[0] == '#' {
        v
    } else {
        let p = first_index(t, '=') as int;
        if p == t.len() {
            v
        } else {
            apply_setting(v, trim_of(t.subrange(0, p)), trim_of(t.subrange(p + 1, t.len() as int)))
        }
    }
}

fn read_count(value: &Vec<char>) -> (r: Option<usize>)
    ensures
        match count_of(value@) {
            Some(n) => r == Some(n as usize),
            None => r.is_none(),
        },
{
    let text = string_of_chars(value);
    match parse_u64(text.as_str()) {
        Some(n) => if n as u128 <= usize::MAX as u128 {
            Some(n as usize)
        } else {
            None
        },
        None => None,
    }
}

fn read_u64(value: &Vec<char>) -> (r: Option<u64>)
    ensures
        match u64_of(value@) {
            Some(n) => r == Some(n as u64),
            None => r.is_none(),
        },
{
    let text = string_of_chars(value);
    parse_u64(text.as_str())
}

impl Settings {
    /// The settings of a run that no file configures, with `cores` workers.
    pub fn defaults(cores: usize) -> (r: Self)
        ensures
            r@ == (SettingsView {
                start: "1"@,
                end: "1000000"@,
                cores: cores,
                mode: "sequential"@,
                compute_mode: ComputeMode::Cpu,
                gpu_device_id: 0,
                gpu_batch_size: 50000,
                cpu_gpu_ratio_ppm: 500000,
                switch_interval: 1000,
                subinterval_ppm: 100000,
                stop_on_find: true,
                puzzle_file: "puzzle.txt"@,
                smart_jump: true,
                wrap_around: false,
                checkpoint_interval: 10000000,
                telegram_bot_token: None,
                telegram_chat_id: None,
            }),
    {
        Settings {
            start: String::from_str("1"),
            end: String::from_str("1000000"),
            cores,
            mode: String::from_str("sequential"),
            compute_mode: ComputeMode::Cpu,
            gpu_device_id: 0,
            gpu_batch_size: 50000,
            cpu_gpu_ratio_ppm: 500000,
            switch_interval: 1000,
            subinterval_ppm: 100000,
            stop_on_find: true,
            puzzle_file: String::from_str("puzzle.txt"),
            smart_jump: true,
            wrap_around: false,
            checkpoint_interval: 10000000,
            telegram_bot_token: None,
            telegram_chat_id: None,
        }
    }

    /// Applies one `key = value` pair.
    pub fn set(&mut self, key: &Vec<char>, value: &Vec<char>)
        ensures
            final(self)@ == apply_setting(old(self)@, key@, value@),
    {
        if chars_are(key, "start") {
            self.start = string_of_chars(value);
        } else if chars_are(key, "end") {
            self.end = string_of_chars(value);
        } else if chars_are(key, "cores") {
            if let Some(n) = read_count(value) {
                self.cores = n;
            }
        } else if chars_are(key, "mode") {
            self.mode = string_of_chars(value);
        } else if chars_are(key, "compute_mode") {
            let text = string_of_chars(value);
            if let Ok(m) = ComputeMode::from_str(text.as_str()) {
                self.compute_mode = m;
            }
        } else if chars_are(key, "gpu_device_id") {
            if let Some(n) = read_count(value) {
                self.gpu_device_id = n;
            }
        } else if chars_are(key, "gpu_batch_size") {
            if let Some(n) = read_count(value) {
                self.gpu_batch_size = n;
            }
        } else if chars_are(key, "cpu_gpu_ratio") {
            if let Some(n) = parse_ratio_ppm(value) {
                self.cpu_gpu_ratio_ppm = n;
            }
        } else if chars_are(key, "switch_interval") {
            if let Some(n) = read_u64(value) {
                self.switch_interval = n;
            }
        } else if chars_are(key, "subinterval_ratio") {
            if let Some(n) = parse_ratio_ppm(value) {
                self.subinterval_ppm = n;
            }
        } else if chars_are(key, "stop_on_find") {
            self.stop_on_find = true_text(value);
        } else if chars_are(key, "puzzle_file") {
            self.puzzle_file = string_of_chars(value);
        } else if chars_are(key, "smart_jump") {
            self.smart_jump = true_text(value);
        } else if chars_are(key, "wrap_around") {
            self.wrap_around = true_text(value);
        } else if chars_are(key, "checkpoint_interval") {
            if let Some(n) = read_u64(value) {
                self.checkpoint_interval = n;
            }
        } else if chars_are(key, "telegram_bot_token") && value.len() > 0 {
            self.telegram_bot_token = Some(string_of_chars(value));
        } else if chars_are(key, "telegram_chat_id") && value.len() > 0 {
            self.telegram_chat_id = Some(string_of_chars(value));
        }
    }

    /// Applies one line of a configuration file.
    pub fn apply_line(&mut self, line: &str)
        ensures
            final(self)@ == line_setting(old(self)@, line@),
    {
        let t = trim_chars(line);
        if t.len() == 0 || t[0] == '#' {
            return;
        }
        let p = find_char(&t, '=');
        if p == t.len() {
            return;
        }
        let key_text = string_of_chars(&slice_chars(&t, 0, p));
        let value_text = string_of_chars(&slice_chars(&t, p + 1, t.len()));
        let key = trim_chars(key_text.as_str());
        let value = trim_chars(value_text.as_str());
        self.set(&key, &value);
    }
}

} // verus!
