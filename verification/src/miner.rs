//! Which miners an engine starts.

use crate::cpu::{get_best_kernel, get_best_thread_count, is_supported, CpuMiner, KernelType};
use crate::selector::{is_selection, Selector};
use vstd::prelude::*;

verus! {

/// What was asked for on the command line.
#[derive(Debug, Clone)]
pub struct MinerConfig {
    /// Don't use the GPU for mining.
    pub no_gpu: bool,
    /// The devices to mine with, where not all of them are.
    pub gpu_devices: Option<Vec<Selector>>,
    /// GPU miner target kernel execution time, in nanoseconds.
    pub gpu_rate: u64,
    /// GPU miner max work size.
    pub gpu_max_worksize: u64,
    /// Don't use the CPU for mining.
    pub no_cpu: bool,
    /// CPU miner threads, defaulting to the processor's thread count.
    pub cpu_threads: Option<usize>,
    /// Select a specific CPU mining kernel.
    pub cpu_kernel: Option<KernelType>,
}

/// Why no miner could be made.
#[derive(Debug, Clone, Copy, PartialEq, Eq)]
pub enum MinerError {
    /// A selector names a platform or a device that is not there.
    UnknownDevice(Selector),
    /// Every backend is switched off or has nothing to mine with.
    NoMinersAvailable,
}

/// One miner of an engine.
#[derive(Debug, Clone, Copy, PartialEq, Eq)]
pub enum Miner {
    /// The GPU miner on a device, given by platform and device index.
    Gpu(usize, usize),
    /// The CPU miner.
    Cpu(CpuMiner),
}

impl MinerConfig {
    /// What holds where nothing is asked for: both backends on, all
    /// devices, a tenth of a second for a dispatch, at most 2^30 work
    /// items.
    pub fn default() -> (config: MinerConfig)
        ensures
            !config.no_gpu,
            config.gpu_devices is None,
            config.gpu_rate == 100_000_000,
            config.gpu_max_worksize == 0x4000_0000,
            !config.no_cpu,
            config.cpu_threads is None,
            config.cpu_kernel is None,
    {
        MinerConfig {
            no_gpu: false,
            gpu_devices: None,
            gpu_rate: 100_000_000,
            gpu_max_worksize: 0x4000_0000,
            no_cpu: false,
            cpu_threads: None,
            cpu_kernel: None,
        }
    }

    /// The selectors that hold: those asked for, or the one for all devices.
    pub open spec fn selectors(&self) -> Seq<Selector> {
        match self.gpu_devices {
            Some(selectors) => selectors@,
            None => seq![Selector::All],
        }
    }

    /// The CPU miner that the options ask for, if they ask for one that
    /// can be had: none where the CPU is switched off, where the kernel
    /// asked for needs extensions that are not detected, or where there
    /// is no thread to work with.
    pub open spec fn cpu_miner(&self, sha_detected: bool, default_threads: usize) -> Option<
        CpuMiner,
    > {
        let threads = match self.cpu_threads {
            Some(n) => n,
            None => default_threads,
        };
        let kernel_type = match self.cpu_kernel {
            Some(k) => k,
            None => if sha_detected {
                KernelType::SHA
            } else {
                KernelType::Unoptimized
            },
        };
        if self.no_cpu || (self.cpu_kernel == Some(KernelType::SHA) && !sha_detected)
            || threads == 0 {
            None
        } else {
            Some(CpuMiner { kernel_type, threads })
        }
    }
}

/// A plan or an error, the plan as a sequence.
pub open spec fn seen(r: Result<Vec<Miner>, MinerError>) -> Result<Seq<Miner>, MinerError> {
    match r {
        Ok(miners) => Ok(miners@),
        Err(e) => Err(e),
    }
}

/// The devices of the first `count` miners, which are GPU miners.
pub open spec fn devices_of(miners: Seq<Miner>, count: int) -> Seq<(usize, usize)> {
    Seq::new(
        count as nat,
        |i: int|
            match miners[i] {
                Miner::Gpu(platform, device) => (platform, device),
                Miner::Cpu(_) => (0usize, 0usize),
            },
    )
}

/// Whether `r` is the plan for the given options on a machine with the
/// given pool of devices: the GPU miners of the selected devices in the
/// order of the pool, unless the GPU is switched off, then the CPU miner
/// if one can be had. A selector that names what is not there is an
/// error, the first of them; and so is a plan without a miner.
pub open spec fn is_plan(
    r: Result<Seq<Miner>, MinerError>,
    opts: MinerConfig,
    pool: Seq<usize>,
    sha_detected: bool,
    default_threads: usize,
) -> bool {
    let selectors = opts.selectors();
    let cpu = opts.cpu_miner(sha_detected, default_threads);
    match r {
        Err(MinerError::UnknownDevice(selector)) => !opts.no_gpu && exists|i: int|
            0 <= i < selectors.len() && #[trigger] selectors[i] == selector && !selector.in_range(
                pool,
            ) && forall|j: int| 0 <= j < i ==> (#[trigger] selectors[j]).in_range(pool),
        Err(MinerError::NoMinersAvailable) => {
            &&& opts.no_gpu || forall|j: int|
                0 <= j < selectors.len() ==> (#[trigger] selectors[j]).in_range(pool)
            &&& opts.no_gpu || is_selection(Seq::empty(), selectors, pool)
            &&& cpu is None
        },
        Ok(miners) => {
            let gpus = if cpu is Some {
                miners.len() - 1
            } else {
                miners.len() as int
            };
            &&& miners.len() > 0
            &&& opts.no_gpu || forall|j: int|
                0 <= j < selectors.len() ==> (#[trigger] selectors[j]).in_range(pool)
            &&& gpus >= 0
            &&& forall|i: int| 0 <= i < gpus ==> (#[trigger] miners[i]) is Gpu
            &&& cpu is Some ==> miners.last() == Miner::Cpu(cpu->0)
            &&& if opts.no_gpu {
                gpus == 0
            } else {
                is_selection(devices_of(miners, gpus), selectors, pool)
            }
        },
    }
}

/// The miners to start for the given options, on a machine with the given
/// pool of devices, and with `default_threads` miner threads where no
/// number is asked for.
pub fn plan_miners(
    opts: &MinerConfig,
    pool: &Vec<usize>,
    sha_detected: bool,
    default_threads: usize,
) -> (r: Result<Vec<Miner>, MinerError>)
    ensures
        is_plan(seen(r), *opts, pool@, sha_detected, default_threads),
{
    let mut miners: Vec<Miner> = Vec::new();
    if !opts.no_gpu {
        let all: Vec<Selector> = vec![Selector::All];
        let selectors: &Vec<Selector> = match &opts.gpu_devices {
            Some(selectors) => selectors,
            None => &all,
        };
        assert(selectors@ =~= opts.selectors());
        let mut i: usize = 0;
        while i < selectors.len()
            invariant
                i <= selectors@.len(),
                !opts.no_gpu,
                selectors@ == opts.selectors(),
                forall|j: int| 0 <= j < i ==> (#[trigger] selectors@[j]).in_range(pool@),
            decreases selectors@.len() - i,
        {
            if !selectors[i].is_in_range(pool) {
                assert(opts.selectors()[i as int] == selectors@[i as int]);
                return Err(MinerError::UnknownDevice(selectors[i]));
            }
            i += 1;
        }
        let devices = Selector::select_all(selectors, pool);
        let mut k: usize = 0;
        while k < devices.len()
            invariant
                k <= devices@.len(),
                miners@.len() == k,
                forall|j: int|
                    0 <= j < k ==> #[trigger] miners@[j] == Miner::Gpu(devices@[j].0, devices@[j].1),
            decreases devices@.len() - k,
        {
            miners.push(Miner::Gpu(devices[k].0, devices[k].1));
            k += 1;
        }
        assert(devices_of(miners@, miners@.len() as int) =~= devices@);
    }
    let ghost gpus = miners@;
    if !opts.no_cpu && is_supported(opts.cpu_kernel, sha_detected) {
        let cpu = CpuMiner::with_defaults(
            opts.cpu_threads,
            opts.cpu_kernel,
            default_threads,
            get_best_kernel(sha_detected),
        );
        if cpu.threads > 0 {
            miners.push(Miner::Cpu(cpu));
            assert(devices_of(miners@, gpus.len() as int) =~= devices_of(gpus, gpus.len() as int));
        }
    }
    if miners.len() == 0 {
        assert(devices_of(miners@, 0) =~= Seq::empty());
        Err(MinerError::NoMinersAvailable)
    } else {
        Ok(miners)
    }
}

/// The miners to start for the given options on this machine, with the
/// given pool of devices: the plan for the number of miner threads that
/// suits its processor.
pub fn create_miners(opts: &MinerConfig, pool: &Vec<usize>, sha_detected: bool) -> (r: Result<
    Vec<Miner>,
    MinerError,
>)
    ensures
        exists|default_threads: usize|
            #[trigger] is_plan(seen(r), *opts, pool@, sha_detected, default_threads),
{
    let default_threads: usize = get_best_thread_count();
    plan_miners(opts, pool, sha_detected, default_threads)
}

} // verus!
