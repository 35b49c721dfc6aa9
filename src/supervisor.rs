//! Run setup: reading the range bounds and modes, and sizing the lanes.
use crate::bignum::{
    decimal_val, hex_val, key_le, key_parse_decimal, key_parse_hex, parses_decimal, parses_hex,
    string_of_chars, unsigned_body, Key,
};
use crate::derive::{derive_addresses, is_valid_secret, p2pkh_of};
use crate::partition::ConfigError;
use crate::worker::SearchMode;
use vstd::prelude::*;

verus! {

/// Which lanes the workers of a run use.
#[derive(Debug, Clone, Copy, PartialEq, Eq, Structural)]
pub enum ComputeMode {
    /// Direct lane only.
    Cpu,
    /// Batched lane only.
    Gpu,
    /// Both lanes, split by a ratio.
    Hybrid,
}

/// Lowercase mapping of a text, as `str::to_lowercase` gives it.
pub uninterp spec fn lower_of(s: Seq<char>) -> Seq<char>;

/// Relies on `str::to_lowercase`: the result depends on the characters alone.
#[verifier::external_body]
fn lowercase_chars(s: &str) -> (r: Vec<char>)
    ensures
        r@ == lower_of(s@),
{
    s.to_lowercase().chars().collect()
}

/// Relies on `str::chars` collected into a vector: the same characters.
#[verifier::external_body]
fn chars_of(s: &str) -> (r: Vec<char>)
    ensures
        r@ == s@,
{
    s.chars().collect()
}

/// Whether two character vectors are equal.
fn same_chars(a: &Vec<char>, b: &Vec<char>) -> (r: bool)
    ensures
        r == (a@ == b@),
{
    if a.len() != b.len() {
        return false;
    }
    let mut i: usize = 0;
    while i < a.len()
        invariant
            i <= a@.len(),
            a@.len() == b@.len(),
            forall|j: int| 0 <= j < i ==> a@[j] == b@[j],
        decreases a@.len() - i,
    {
        if a[i] != b[i] {
            return false;
        }
        i = i + 1;
    }
    assert(a@ =~= b@);
    true
}

/// The compute mode a text names, ignoring case: `cpu`, `gpu`, and `hybrid`,
/// `cpu+gpu` or `mixed`.
pub open spec fn compute_mode_of(s: Seq<char>) -> Option<ComputeMode> {
    if lower_of(s) == seq!['c', 'p', 'u'] {
        Some(ComputeMode::Cpu)
    } else if lower_of(s) == seq!['g', 'p', 'u'] {
        Some(ComputeMode::Gpu)
    } else if lower_of(s) == seq!['h', 'y', 'b', 'r', 'i', 'd'] || lower_of(s) == seq![
        'c',
        'p',
        'u',
        '+',
        'g',
        'p',
        'u',
    ] || lower_of(s) == seq!['m', 'i', 'x', 'e', 'd'] {
        Some(ComputeMode::Hybrid)
    } else {
        None
    }
}

impl ComputeMode {
    /// Reads a compute mode, ignoring case: `cpu`, `gpu`, and `hybrid`,
    /// `cpu+gpu` or `mixed`.
    pub fn from_str(s: &str) -> (r: Result<ComputeMode, ConfigError>)
        ensures
            r == match compute_mode_of(s@) {
                Some(m) => Ok::<ComputeMode, ConfigError>(m),
                None => Err(ConfigError::UnknownComputeMode),
            },
    {
        let t = lowercase_chars(s);
        if same_chars(&t, &vec!['c', 'p', 'u']) {
            Ok(ComputeMode::Cpu)
        } else if same_chars(&t, &vec!['g', 'p', 'u']) {
            Ok(ComputeMode::Gpu)
        } else if same_chars(&t, &vec!['h', 'y', 'b', 'r', 'i', 'd']) || same_chars(
            &t,
            &vec!['c', 'p', 'u', '+', 'g', 'p', 'u'],
        ) || same_chars(&t, &vec!['m', 'i', 'x', 'e', 'd']) {
            Ok(ComputeMode::Hybrid)
        } else {
            Err(ConfigError::UnknownComputeMode)
        }
    }
}

/// Reads a search mode, exactly: `sequential`, `random`, `smart` or `kangaroo`.
pub fn parse_search_mode(s: &str) -> (r: Result<SearchMode, ConfigError>)
    ensures
        r == if s@ == seq!['s', 'e', 'q', 'u', 'e', 'n', 't', 'i', 'a', 'l'] {
            Ok::<SearchMode, ConfigError>(SearchMode::Sequential)
        } else if s@ == seq!['r', 'a', 'n', 'd', 'o', 'm'] {
            Ok(SearchMode::Random)
        } else if s@ == seq!['s', 'm', 'a', 'r', 't'] {
            Ok(SearchMode::Smart)
        } else if s@ == seq!['k', 'a', 'n', 'g', 'a', 'r', 'o', 'o'] {
            Ok(SearchMode::Kangaroo)
        } else {
            Err(ConfigError::UnknownSearchMode)
        },
{
    let t = chars_of(s);
    if same_chars(&t, &vec!['s', 'e', 'q', 'u', 'e', 'n', 't', 'i', 'a', 'l']) {
        Ok(SearchMode::Sequential)
    } else if same_chars(&t, &vec!['r', 'a', 'n', 'd', 'o', 'm']) {
        Ok(SearchMode::Random)
    } else if same_chars(&t, &vec!['s', 'm', 'a', 'r', 't']) {
        Ok(SearchMode::Smart)
    } else if same_chars(&t, &vec!['k', 'a', 'n', 'g', 'a', 'r', 'o', 'o']) {
        Ok(SearchMode::Kangaroo)
    } else {
        Err(ConfigError::UnknownSearchMode)
    }
}

/// Whether a bound is written in hexadecimal, behind `0x`.
pub open spec fn has_hex_prefix(s: Seq<char>) -> bool {
    s.len() >= 2 && s[0] == '0' && s[1] == 'x'
}

/// The value a bound denotes, when it reads as one: hexadecimal behind `0x`,
/// decimal otherwise.
pub open spec fn bound_value(s: Seq<char>) -> Option<nat> {
    if has_hex_prefix(s) {
        if parses_hex(s.skip(2)) {
            Some(hex_val(unsigned_body(s.skip(2))))
        } else {
            None
        }
    } else if parses_decimal(s) {
        Some(decimal_val(unsigned_body(s)))
    } else {
        None
    }
}

/// Reads a range bound: hexadecimal behind `0x`, decimal otherwise.
pub fn parse_big_int(s: &str) -> (r: Result<Key, ConfigError>)
    ensures
        match bound_value(s@) {
            Some(v) => r.is_ok() && r.unwrap()@ == v,
            None => r == Err::<Key, ConfigError>(ConfigError::UnparsableBound),
        },
{
    let t = chars_of(s);
    let parsed = if t.len() >= 2 && t[0] == '0' && t[1] == 'x' {
        let mut rest: Vec<char> = Vec::new();
        let mut i: usize = 2;
        while i < t.len()
            invariant
                2 <= i <= t@.len(),
                rest@ =~= t@.subrange(2, i as int),
            decreases t@.len() - i,
        {
            rest.push(t[i]);
            i = i + 1;
        }
        assert(rest@ =~= s@.skip(2));
        let text = string_of_chars(&rest);
        key_parse_hex(text.as_str())
    } else {
        key_parse_decimal(s)
    };
    match parsed {
        Some(k) => Ok(k),
        None => Err(ConfigError::UnparsableBound),
    }
}

/// Reads the bounds of the search range, which must not start after it ends.
pub fn parse_range(start: &str, end: &str) -> (r: Result<(Key, Key), ConfigError>)
    ensures
        bound_value(start@) is None || bound_value(end@) is None ==> r == Err::<
            (Key, Key),
            ConfigError,
        >(ConfigError::UnparsableBound),
        bound_value(start@) is Some && bound_value(end@) is Some ==> {
            let (s, e) = (bound_value(start@)->0, bound_value(end@)->0);
            &&& s > e ==> r == Err::<(Key, Key), ConfigError>(ConfigError::InvertedRange)
            &&& s <= e ==> r.is_ok() && r.unwrap().0@ == s && r.unwrap().1@ == e
        },
{
    let s = match parse_big_int(start) {
        Ok(k) => k,
        Err(e) => return Err(e),
    };
    let e = match parse_big_int(end) {
        Ok(k) => k,
        Err(e) => return Err(e),
    };
    if !key_le(&s, &e) {
        return Err(ConfigError::InvertedRange);
    }
    Ok((s, e))
}

/// How many workers run in each lane.
#[derive(Debug, Clone, Copy, PartialEq, Eq, Structural)]
pub struct LanePlan {
    pub direct: usize,
    pub batched: usize,
}

/// One million: lane ratios are given in millionths.
pub const PPM: u64 = 1_000_000;

/// Direct-lane workers of a mixed run: `ceil(total * ratio)`.
pub open spec fn mixed_direct(total: nat, ratio_ppm: nat) -> nat {
    ((total * ratio_ppm + 999_999) / 1_000_000) as nat
}

/// Splits `total` workers into lanes. Direct only runs every worker in the
/// direct lane; batched only runs one batched worker; mixed runs
/// `ceil(total * ratio)` direct workers and the rest batched. Without the
/// batched lane every worker falls back to the direct lane.
pub fn plan_lanes(mode: ComputeMode, total: usize, ratio_ppm: u64, batched_available: bool) -> (r:
    Result<LanePlan, ConfigError>)
    ensures
        mode == ComputeMode::Hybrid && ratio_ppm > PPM ==> r == Err::<LanePlan, ConfigError>(
            ConfigError::RatioAboveOne,
        ),
        !(mode == ComputeMode::Hybrid && ratio_ppm > PPM) ==> r.is_ok(),
        r.is_ok() && !batched_available ==> r.unwrap() == (LanePlan { direct: total, batched: 0 }),
        r.is_ok() && batched_available ==> r.unwrap() == match mode {
            ComputeMode::Cpu => LanePlan { direct: total, batched: 0 },
            ComputeMode::Gpu => LanePlan { direct: 0, batched: 1 },
            ComputeMode::Hybrid => LanePlan {
                direct: mixed_direct(total as nat, ratio_ppm as nat) as usize,
                batched: (total - mixed_direct(total as nat, ratio_ppm as nat)) as usize,
            },
        },
        r.is_ok() && mode == ComputeMode::Hybrid ==> r.unwrap().direct + r.unwrap().batched
            == total,
{
    if mode == ComputeMode::Hybrid && ratio_ppm > PPM {
        return Err(ConfigError::RatioAboveOne);
    }
    if !batched_available {
        return Ok(LanePlan { direct: total, batched: 0 });
    }
    match mode {
        ComputeMode::Cpu => Ok(LanePlan { direct: total, batched: 0 }),
        ComputeMode::Gpu => Ok(LanePlan { direct: 0, batched: 1 }),
        ComputeMode::Hybrid => {
            assert(total as u128 * ratio_ppm as u128 <= (usize::MAX as u128) * 1_000_000) by (
            nonlinear_arith)
                requires
                    ratio_ppm <= 1_000_000,
            ;
            let scaled: u128 = total as u128 * ratio_ppm as u128 + 999_999;
            let direct_wide: u128 = scaled / 1_000_000;
            assert(direct_wide <= total) by (nonlinear_arith)
                requires
                    direct_wide == (total as u128 * ratio_ppm as u128 + 999_999) / 1_000_000,
                    ratio_ppm <= 1_000_000,
            ;
            let direct = direct_wide as usize;
            Ok(LanePlan { direct, batched: total - direct })
        },
    }
}

/// Relies on `num_cpus::get`, which always returns at least one.
#[verifier::external_body]
fn detected_cores() -> (r: usize)
    ensures
        r >= 1,
{
    num_cpus::get()
}

/// Workers to run: the configured count, or the machine's core count when
/// that is zero.
pub fn worker_count(cores: usize) -> (r: usize)
    ensures
        cores > 0 ==> r == cores,
        r >= 1,
{
    if cores == 0 {
        detected_cores()
    } else {
        cores
    }
}

/// What is known of the batched lane's accelerators.
pub struct GPUInfo {
    pub available: bool,
    pub device_count: usize,
    pub device_names: Vec<String>,
    pub cuda_available: bool,
    pub opencl_available: bool,
}

impl GPUInfo {
    /// Summarises the outcome of the two probes, CUDA first.
    pub fn detect(cuda: bool, opencl: bool) -> (r: Self)
        ensures
            r.available == (cuda || opencl),
            r.cuda_available == cuda,
            r.opencl_available == opencl,
            r.device_count == (if cuda { 1usize } else { 0 }) + (if opencl { 1usize } else { 0 }),
            r.device_names@.len() == r.device_count,
    {
        let mut info = GPUInfo {
            available: false,
            device_count: 0,
            device_names: Vec::new(),
            cuda_available: false,
            opencl_available: false,
        };
        if cuda {
            info.cuda_available = true;
            info.available = true;
            info.device_count = info.device_count + Self::get_cuda_device_count(cuda);
            let mut names = Self::get_cuda_device_names(cuda);
            info.device_names.append(&mut names);
        }
        if opencl {
            info.opencl_available = true;
            info.available = true;
            info.device_count = info.device_count + Self::get_opencl_device_count(opencl);
            let mut names = Self::get_opencl_device_names(opencl);
            info.device_names.append(&mut names);
        }
        info
    }

    /// CUDA devices: one when the probe found CUDA.
    pub fn get_cuda_device_count(cuda: bool) -> (r: usize)
        ensures
            r == if cuda { 1usize } else { 0 },
    {
        if cuda {
            1
        } else {
            0
        }
    }

    /// Names of the CUDA devices.
    pub fn get_cuda_device_names(cuda: bool) -> (r: Vec<String>)
        ensures
            r@.len() == if cuda { 1int } else { 0 },
            cuda ==> r@[0]@ == "NVIDIA GPU (CUDA)"@,
    {
        if cuda {
            vec![String::from_str("NVIDIA GPU (CUDA)")]
        } else {
            Vec::new()
        }
    }

    /// OpenCL devices: one when the probe found OpenCL.
    pub fn get_opencl_device_count(opencl: bool) -> (r: usize)
        ensures
            r == if opencl { 1usize } else { 0 },
    {
        if opencl {
            1
        } else {
            0
        }
    }

    /// Names of the OpenCL devices.
    pub fn get_opencl_device_names(opencl: bool) -> (r: Vec<String>)
        ensures
            r@.len() == if opencl { 1int } else { 0 },
            opencl ==> r@[0]@ == "OpenCL Device"@,
    {
        if opencl {
            vec![String::from_str("OpenCL Device")]
        } else {
            Vec::new()
        }
    }
}

/// The batched lane's derivation: keys handed over in batches.
pub struct GPUWorker {
    pub device_id: usize,
    pub batch_size: usize,
}

/// The values, in order, of the keys of a batch that are valid secrets.
pub open spec fn valid_values(keys: Seq<Key>) -> Seq<nat>
    decreases keys.len(),
{
    if keys.len() == 0 {
        Seq::empty()
    } else if is_valid_secret(keys.last()@) {
        valid_values(keys.drop_last()).push(keys.last()@)
    } else {
        valid_values(keys.drop_last())
    }
}

/// The keys' values of batch results.
pub open spec fn result_keys(r: Seq<(Key, Vec<String>)>) -> Seq<nat> {
    r.map_values(|e: (Key, Vec<String>)| e.0@)
}

impl GPUWorker {
    pub fn new(device_id: usize, batch_size: usize) -> (r: Self)
        ensures
            r.device_id == device_id,
            r.batch_size == batch_size,
    {
        GPUWorker { device_id, batch_size }
    }

    /// Derives the addresses of the first `batch_size` keys, skipping those
    /// that are not valid secrets; each result pairs a key with its
    /// compressed and uncompressed addresses.
    pub fn process_key_batch(&self, keys: &Vec<Key>) -> (r: Vec<(Key, Vec<String>)>)
        ensures
            result_keys(r@) == valid_values(
                keys@.take(
                    if keys@.len() < self.batch_size {
                        keys@.len() as int
                    } else {
                        self.batch_size as int
                    },
                ),
            ),
            forall|i: int|
                0 <= i < r@.len() ==> {
                    &&& (#[trigger] r@[i]).1@.len() == 2
                    &&& r@[i].1@[0]@ == p2pkh_of(r@[i].0@, true)
                    &&& r@[i].1@[1]@ == p2pkh_of(r@[i].0@, false)
                },
    {
        let m: usize = if keys.len() < self.batch_size {
            keys.len()
        } else {
            self.batch_size
        };
        let mut r: Vec<(Key, Vec<String>)> = Vec::new();
        let mut i: usize = 0;
        while i < m
            invariant
                m <= keys@.len(),
                i <= m,
                result_keys(r@) == valid_values(keys@.take(i as int)),
                forall|j: int|
                    0 <= j < r@.len() ==> {
                        &&& (#[trigger] r@[j]).1@.len() == 2
                        &&& r@[j].1@[0]@ == p2pkh_of(r@[j].0@, true)
                        &&& r@[j].1@[1]@ == p2pkh_of(r@[j].0@, false)
                    },
            decreases m - i,
        {
            let addresses = derive_addresses(&keys[i]);
            let ghost before = r@;
            assert(keys@.take(i + 1).drop_last() =~= keys@.take(i as int));
            assert(keys@.take(i + 1).last() == keys@[i as int]);
            if addresses.len() == 2 {
                r.push((keys[i].clone(), addresses));
                assert(result_keys(r@) =~= result_keys(before).push(keys@[i as int]@));
            }
            i = i + 1;
        }
        r
    }
}

/// Placeholder for a baby-step giant-step search, which this library does not
/// carry out.
pub struct BabyStepGiantStep {}

impl BabyStepGiantStep {
    pub fn new() -> (r: Self) {
        BabyStepGiantStep {  }
    }
}

} // verus!
