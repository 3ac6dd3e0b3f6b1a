//! How the CPU is shared out among workers: how many of them, and with
//! which kernel.

use crate::decimal::{decimal, lemma_decimal_digits, push_decimal};
use crate::input::ScalarKernelInput;
use crate::kernels::sha::SHA;
use crate::kernels::unoptimized::Unoptimized;
use crate::kernels::Kernel;
use crate::offsets::{spec_offsets, worker_offsets};
use crate::text::{
    as_text, contains_text, lemma_ascii_text, lowercase, occurs_in, same_text, text_of,
    to_lowercase,
};
use vstd::prelude::*;
use vstd::string::*;

verus! {

/// Select a CPU mining kernel to use.
#[derive(Debug, Clone, Copy, PartialEq, Eq, PartialOrd, Ord, Hash)]
pub enum KernelType {
    /// CPU mining kernel with no hardware-specific optimizations.
    Unoptimized,
    /// CPU mining kernel that compresses the padded block itself.
    SHA,
}

/// A text that names no kernel, in lowercase.
#[derive(Debug, Clone, PartialEq, Eq)]
pub struct InvalidKernelType(pub String);

impl KernelType {
    /// The kernel that a lowercase text names, if it names one: the
    /// portable kernel goes by `portable`, the other by `sha`, and there
    /// is no other name.
    pub open spec fn named(lower: Seq<char>) -> Option<KernelType> {
        if lower == "portable"@ {
            Some(KernelType::Unoptimized)
        } else if lower == "sha"@ {
            Some(KernelType::SHA)
        } else {
            None
        }
    }

    /// The kernel that a text in lowercase names.
    pub fn from_lowercase(lower: &str) -> (r: Result<KernelType, InvalidKernelType>)
        ensures
            match r {
                Ok(kernel) => KernelType::named(lower@) == Some(kernel),
                Err(e) => KernelType::named(lower@) is None && e.0@ == lower@,
            },
    {
        if same_text(lower, "portable") {
            Ok(KernelType::Unoptimized)
        } else if same_text(lower, "sha") {
            Ok(KernelType::SHA)
        } else {
            Err(InvalidKernelType(lower.to_owned()))
        }
    }

    /// The kernel that a text names, in letters of either case: a text
    /// whose lowercase form is `portable` or `sha`. Any other text is an
    /// error, which carries the lowercase form.
    pub fn from_str(s: &str) -> (r: Result<KernelType, InvalidKernelType>)
        ensures
            r is Ok <==> lowercase(s@) == "portable"@ || lowercase(s@) == "sha"@,
            match r {
                Ok(kernel) => KernelType::named(lowercase(s@)) == Some(kernel),
                Err(e) => KernelType::named(lowercase(s@)) is None && e.0@ == lowercase(s@),
            },
    {
        let lower = to_lowercase(s);
        KernelType::from_lowercase(lower.as_str())
    }

    /// The kernel used where none is asked for and none is detected.
    pub fn default() -> (kernel: KernelType)
        ensures
            kernel == KernelType::Unoptimized,
    {
        KernelType::Unoptimized
    }

    /// The name under which this kernel is shown.
    pub fn name(&self) -> (name: &'static str)
        ensures
            name@ == (match self {
                KernelType::Unoptimized => "unoptimized"@,
                KernelType::SHA => "SHA"@,
            }),
    {
        match self {
            KernelType::Unoptimized => "unoptimized",
            KernelType::SHA => "SHA",
        }
    }

    /// The name of this kernel as an owned string.
    pub fn to_string(&self) -> (name: String)
        ensures
            name@ == (match self {
                KernelType::Unoptimized => "unoptimized"@,
                KernelType::SHA => "SHA"@,
            }),
    {
        self.name().to_owned()
    }
}

impl Kernel for KernelType {
    /// The score that the selected kernel gives.
    open spec fn spec_score(&self, block: Seq<u8>) -> nat {
        match self {
            KernelType::Unoptimized => Unoptimized.spec_score(block),
            KernelType::SHA => SHA.spec_score(block),
        }
    }

    proof fn lemma_score_fits(&self, block: Seq<u8>) {
        Unoptimized.lemma_score_fits(block);
        SHA.lemma_score_fits(block);
    }

    fn score(&self, input: &ScalarKernelInput) -> (score: u64) {
        match self {
            KernelType::Unoptimized => Unoptimized.score(input),
            KernelType::SHA => SHA.score(input),
        }
    }
}

/// The kernels that can be used, the least preferred first: the portable
/// one always, the other where the processor has the SHA extensions.
pub fn get_supported_kernels(sha_detected: bool) -> (kernels: Vec<KernelType>)
    ensures
        kernels@ == (if sha_detected {
            seq![KernelType::Unoptimized, KernelType::SHA]
        } else {
            seq![KernelType::Unoptimized]
        }),
{
    let mut kernels: Vec<KernelType> = Vec::new();
    kernels.push(KernelType::Unoptimized);
    if sha_detected {
        kernels.push(KernelType::SHA);
    }
    kernels
}

/// The best kernel that can be used: the last of the supported ones.
pub fn get_best_kernel(sha_detected: bool) -> (kernel: KernelType)
    ensures
        kernel == (if sha_detected {
            KernelType::SHA
        } else {
            KernelType::Unoptimized
        }),
{
    let kernels = get_supported_kernels(sha_detected);
    kernels[kernels.len() - 1]
}

/// `num_cpus::get`. Trusted: the number of processors that this process
/// can use, which is at least one.
#[verifier::external_body]
pub(crate) fn logical_cpus() -> (n: usize)
    ensures
        n >= 1,
{
    num_cpus::get()
}

/// `num_cpus::get_physical`. Trusted: the number of physical cores, as
/// far as the system tells, which is at least one.
#[verifier::external_body]
pub(crate) fn physical_cpus() -> (n: usize)
    ensures
        n >= 1,
{
    num_cpus::get_physical()
}

/// `raw_cpuid::CpuId::get_vendor_info`, as a string: the vendor that the
/// processor names, where it names one. Nothing is claimed of it.
#[verifier::external_body]
pub(crate) fn cpu_vendor() -> Option<String> {
    match raw_cpuid::CpuId::new().get_vendor_info() {
        Some(vendor) => Some(vendor.as_str().to_string()),
        None => None,
    }
}

/// `rand::random` for a `u64`. Nothing is claimed of the number.
#[verifier::external_body]
pub(crate) fn random_u64() -> u64 {
    rand::random::<u64>()
}

/// A random prefix for a miner: sixteen bits of a random number.
pub(crate) fn random_prefix() -> u16 {
    (random_u64() & 0xffff) as u16
}

/// Whether a vendor name in lowercase is that of Intel.
pub fn is_intel(vendor_lower: &str) -> (intel: bool)
    ensures
        intel == occurs_in(vendor_lower.spec_bytes(), "intel".spec_bytes()),
{
    contains_text(vendor_lower, "intel")
}

/// Whether the processor names Intel as its vendor.
fn vendor_is_intel() -> bool {
    match cpu_vendor() {
        Some(vendor) => {
            let lower = to_lowercase(vendor.as_str());
            is_intel(lower.as_str())
        },
        None => false,
    }
}

/// Some CPUs struggle when every thread is in use, to the point of making
/// the miner unusable; this is prevalent on Intel hardware. The default
/// number of miner threads is therefore lower there: it is the number
/// that the rule gives for the cores and threads of this machine, and at
/// least one.
pub fn get_best_thread_count() -> (count: usize)
    ensures
        count >= 1,
        exists|cores: usize, threads: usize, intel: bool|
            cores >= 1 && threads >= 1 && count == spec_best_thread_count(cores, threads, intel),
{
    let cores: usize = physical_cpus();
    let threads: usize = logical_cpus();
    let intel: bool = vendor_is_intel();
    best_thread_count(cores, threads, intel)
}

/// What is known of the processor.
#[derive(Debug, Clone)]
pub struct CpuInfo {
    /// The number of physical cores.
    pub cores: usize,
    /// The number of hardware threads.
    pub threads: usize,
    /// The number of miner threads used where none is asked for.
    pub default_miner_threads: usize,
    /// The kernels that can be used.
    pub supported: Vec<KernelType>,
}

/// What is known of the processor of this machine, given whether it has
/// the SHA extensions: at least one core and one thread, and the default
/// number of miner threads that the rule gives for them.
pub fn get_cpu_info(sha_detected: bool) -> (info: CpuInfo)
    ensures
        info.cores >= 1,
        info.threads >= 1,
        info.default_miner_threads >= 1,
        info.default_miner_threads == spec_best_thread_count(info.cores, info.threads, true)
            || info.default_miner_threads == spec_best_thread_count(
            info.cores,
            info.threads,
            false,
        ),
        info.supported@ == (if sha_detected {
            seq![KernelType::Unoptimized, KernelType::SHA]
        } else {
            seq![KernelType::Unoptimized]
        }),
{
    let cores: usize = physical_cpus();
    let threads: usize = logical_cpus();
    let intel: bool = vendor_is_intel();
    let default_miner_threads: usize = best_thread_count(cores, threads, intel);
    CpuInfo { cores, threads, default_miner_threads, supported: get_supported_kernels(sha_detected) }
}

/// A kernel that was asked for and cannot be used on this processor.
#[derive(Debug, Clone, Copy, PartialEq, Eq)]
pub struct KernelNotSupported(pub KernelType);

/// Whether the kernel asked for, if one is, can be used: the one that
/// needs the SHA extensions only where they are detected.
pub fn is_supported(cpu_kernel: Option<KernelType>, sha_detected: bool) -> (r: bool)
    ensures
        r == !(cpu_kernel == Some(KernelType::SHA) && !sha_detected),
{
    match cpu_kernel {
        Some(KernelType::SHA) => sha_detected,
        _ => true,
    }
}

/// A CPU miner: a number of worker threads that share one kernel.
#[derive(Debug, Clone, Copy, PartialEq, Eq)]
pub struct CpuMiner {
    pub kernel_type: KernelType,
    pub threads: usize,
}

impl CpuMiner {
    /// The miner for the number of threads and the kernel asked for,
    /// with the given defaults where none is.
    pub fn with_defaults(
        cpu_threads: Option<usize>,
        cpu_kernel: Option<KernelType>,
        default_threads: usize,
        default_kernel: KernelType,
    ) -> (miner: CpuMiner)
        ensures
            miner.threads == (match cpu_threads {
                Some(n) => n,
                None => default_threads,
            }),
            miner.kernel_type == (match cpu_kernel {
                Some(k) => k,
                None => default_kernel,
            }),
    {
        CpuMiner {
            threads: match cpu_threads {
                Some(n) => n,
                None => default_threads,
            },
            kernel_type: match cpu_kernel {
                Some(k) => k,
                None => default_kernel,
            },
        }
    }

    /// The miner for the number of threads and the kernel asked for; where
    /// none is, the best for this machine. A kernel that needs the SHA
    /// extensions cannot be had on a processor without them.
    pub fn new(cpu_threads: Option<usize>, cpu_kernel: Option<KernelType>, sha_detected: bool) -> (r:
        Result<CpuMiner, KernelNotSupported>)
        ensures
            r is Err <==> cpu_kernel == Some(KernelType::SHA) && !sha_detected,
            match r {
                Ok(miner) => {
                    &&& cpu_threads is Some ==> miner.threads == cpu_threads->0
                    &&& cpu_threads is None ==> miner.threads >= 1
                    &&& miner.kernel_type == (match cpu_kernel {
                        Some(k) => k,
                        None => if sha_detected {
                            KernelType::SHA
                        } else {
                            KernelType::Unoptimized
                        },
                    })
                },
                Err(e) => e.0 == KernelType::SHA,
            },
    {
        if !is_supported(cpu_kernel, sha_detected) {
            return Err(KernelNotSupported(KernelType::SHA));
        }
        let default_threads: usize = match cpu_threads {
            Some(n) => n,
            None => get_best_thread_count(),
        };
        Ok(
            CpuMiner::with_defaults(
                cpu_threads,
                cpu_kernel,
                default_threads,
                get_best_kernel(sha_detected),
            ),
        )
    }

    /// The text that describes this miner, in ASCII.
    pub open spec fn description(&self) -> Seq<u8> {
        seq![0x43u8, 0x50u8, 0x55u8, 0x20u8, 0x5bu8] + decimal(self.threads as nat) + seq![
            0x78u8,
            0x20u8,
        ] + (match self.kernel_type {
            KernelType::Unoptimized => seq![
                0x75u8,
                0x6eu8,
                0x6fu8,
                0x70u8,
                0x74u8,
                0x69u8,
                0x6du8,
                0x69u8,
                0x7au8,
                0x65u8,
                0x64u8,
            ],
            KernelType::SHA => seq![0x53u8, 0x48u8, 0x41u8],
        }) + seq![0x5du8]
    }

    /// Get a human-readable description of this miner: `CPU [`, the number
    /// of threads, `x `, the name of the kernel, and `]`.
    pub fn describe(&self) -> (s: String)
        ensures
            s@ == text_of(self.description()),
    {
        let mut out: Vec<u8> = Vec::new();
        out.push(0x43);
        out.push(0x50);
        out.push(0x55);
        out.push(0x20);
        out.push(0x5b);
        push_decimal(&mut out, self.threads as u128);
        out.push(0x78);
        out.push(0x20);
        match self.kernel_type {
            KernelType::Unoptimized => {
                out.push(0x75);
                out.push(0x6e);
                out.push(0x6f);
                out.push(0x70);
                out.push(0x74);
                out.push(0x69);
                out.push(0x6d);
                out.push(0x69);
                out.push(0x7a);
                out.push(0x65);
                out.push(0x64);
            },
            KernelType::SHA => {
                out.push(0x53);
                out.push(0x48);
                out.push(0x41);
            },
        }
        out.push(0x5d);
        proof {
            assert(out@ =~= self.description());
            lemma_decimal_digits(self.threads as nat);
            lemma_ascii_text(out@);
        }
        as_text(out.as_slice()).to_owned()
    }

    /// The starting points of the workers of this miner: evenly spaced
    /// from a random one on.
    pub fn start_offsets(&self) -> (offsets: Vec<u64>)
        ensures
            exists|base: u64| offsets@ == spec_offsets(base, self.threads as nat),
    {
        let base: u64 = random_u64();
        let offsets = worker_offsets(base, self.threads);
        assert(offsets@ =~= spec_offsets(base, self.threads as nat));
        offsets
    }
}

/// The default number of miner threads: all `threads`, but on Intel
/// hardware two fewer, and there never fewer than there are `cores`.
pub open spec fn spec_best_thread_count(cores: usize, threads: usize, intel: bool) -> int {
    if !intel {
        threads as int
    } else if threads - 2 >= cores {
        threads - 2
    } else {
        cores as int
    }
}

/// The default number of miner threads on a processor with `cores` physical
/// cores and `threads` hardware threads: all threads, but on Intel hardware
/// two fewer, and there never fewer than there are cores.
pub fn best_thread_count(cores: usize, threads: usize, intel: bool) -> (count: usize)
    ensures
        count == spec_best_thread_count(cores, threads, intel),
{
    if !intel {
        threads
    } else if threads >= 2 && threads - 2 >= cores {
        threads - 2
    } else {
        cores
    }
}

} // verus!
