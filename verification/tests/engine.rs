use kristforge::address::Address;
use kristforge::benchmark::{BenchmarkInterface, MinerInterface};
use kristforge::block::{Block, ShortHash};
use kristforge::coordinator::{Coordinator, CoordinatorEvent, CoordinatorState, ServerMessage};
use kristforge::cpu::{
    get_best_kernel, get_best_thread_count, get_cpu_info, get_supported_kernels, is_intel,
    is_supported, CpuMiner, InvalidKernelType, KernelNotSupported, KernelType,
};
use kristforge::gpu::{
    next_offset, round_worksize, solution_in, BatchSizer, Cycle, CycleWindow, Dispatch, GpuWorker,
    MinerInputs, MinerState, Pace,
};
use kristforge::target::Solution;
use kristforge::worker::WorkerState;
use kristforge::interface::{broadcast, CurrentTarget, StopMining, TargetMailbox};
use kristforge::miner::{create_miners, plan_miners, Miner, MinerConfig, MinerError};
use kristforge::selector::Selector;
use kristforge::rate::{Elapsed, HashRate};
use kristforge::target::Target;

fn target(work: u64, first: u8) -> Target {
    Target {
        work,
        block: ShortHash([first, 1, 2, 3, 4, 5]),
    }
}

#[test]
fn latest_target_wins() {
    let t1 = target(100, 1);
    let t2 = target(200, 2);
    let mut mailbox = TargetMailbox::new();
    mailbox.post(Some(t1));
    mailbox.post(Some(t2));
    assert_eq!(mailbox.try_read(), Some(CurrentTarget::New(t2)));
    assert_eq!(mailbox.try_read(), Some(CurrentTarget::Unchanged(t2)));
    assert_eq!(mailbox.try_read(), Some(CurrentTarget::Unchanged(t2)));
}

#[test]
fn mailbox_before_the_first_target() {
    let mut mailbox = TargetMailbox::new();
    assert!(!mailbox.is_ready());
    assert_eq!(mailbox.try_read(), None);
    mailbox.post(Some(target(1, 1)));
    assert!(mailbox.is_ready());
    assert_eq!(mailbox.try_read(), Some(CurrentTarget::New(target(1, 1))));
    assert!(mailbox.is_ready());
}

#[test]
fn mailbox_stop() {
    let mut mailbox = TargetMailbox::new();
    mailbox.post(None);
    assert!(mailbox.is_ready());
    assert_eq!(mailbox.try_read(), Some(CurrentTarget::StopMining));
    assert_eq!(mailbox.try_read(), Some(CurrentTarget::StopMining));
    let mut mailbox = TargetMailbox::new();
    mailbox.post(Some(target(1, 1)));
    assert_eq!(mailbox.try_read(), Some(CurrentTarget::New(target(1, 1))));
    // a target posted and overwritten by the stop is never seen
    mailbox.post(Some(target(2, 2)));
    mailbox.post(None);
    assert_eq!(mailbox.try_read(), Some(CurrentTarget::StopMining));
    assert_eq!(mailbox.try_read(), Some(CurrentTarget::StopMining));
}

#[test]
fn broadcast_reaches_every_mailbox() {
    let mut mailboxes = vec![TargetMailbox::new(), TargetMailbox::new(), TargetMailbox::new()];
    broadcast(&mut mailboxes, Some(target(1, 1)));
    assert_eq!(mailboxes[1].try_read(), Some(CurrentTarget::New(target(1, 1))));
    broadcast(&mut mailboxes, Some(target(2, 2)));
    assert_eq!(mailboxes[0].try_read(), Some(CurrentTarget::New(target(2, 2))));
    assert_eq!(mailboxes[1].try_read(), Some(CurrentTarget::New(target(2, 2))));
    assert_eq!(mailboxes[2].try_read(), Some(CurrentTarget::New(target(2, 2))));
    assert_eq!(mailboxes[2].try_read(), Some(CurrentTarget::Unchanged(target(2, 2))));
    broadcast(&mut mailboxes, None);
    for mailbox in mailboxes.iter_mut() {
        assert_eq!(mailbox.try_read(), Some(CurrentTarget::StopMining));
    }
    let mut none: Vec<TargetMailbox> = vec![];
    broadcast(&mut none, None);
    assert!(none.is_empty());
}

#[test]
fn batch_size_follows_the_pace() {
    let mut sizer = BatchSizer::new(64, 1 << 30);
    assert_eq!(sizer.work_size, 64);
    sizer.adjust(Pace::TooFast);
    assert_eq!(sizer.work_size, 128);
    sizer.adjust(Pace::OnTarget);
    assert_eq!(sizer.work_size, 128);
    sizer.adjust(Pace::TooSlow);
    assert_eq!(sizer.work_size, 64);
    sizer.adjust(Pace::TooSlow);
    assert_eq!(sizer.work_size, 64);
    for _ in 0..40 {
        sizer.adjust(Pace::TooFast);
        assert!(sizer.work_size.is_power_of_two());
        assert!(sizer.work_size <= 1 << 30);
    }
    assert_eq!(sizer.work_size, 1 << 30);
    sizer.adjust(Pace::TooSlow);
    assert_eq!(sizer.work_size, 1 << 29);
    // bounds off the grid
    let mut sizer = BatchSizer::new(1, 100);
    for expected in [2, 4, 8, 16, 32, 64, 100, 100] {
        sizer.adjust(Pace::TooFast);
        assert_eq!(sizer.work_size, expected);
    }
    for expected in [50, 25, 12, 6, 3, 1, 1] {
        sizer.adjust(Pace::TooSlow);
        assert_eq!(sizer.work_size, expected);
    }
    let mut sizer = BatchSizer {
        work_size: u64::MAX,
        min_work_size: 0,
        max_work_size: u64::MAX,
    };
    sizer.adjust(Pace::TooFast);
    assert_eq!(sizer.work_size, u64::MAX);
}

#[test]
fn cycle_window() {
    let window = CycleWindow::around(100_000_000);
    assert_eq!(window.lo, 50_000_000);
    assert_eq!(window.hi, 200_000_000);
    assert_eq!(window.classify(0), Pace::TooFast);
    assert_eq!(window.classify(49_999_999), Pace::TooFast);
    assert_eq!(window.classify(50_000_000), Pace::OnTarget);
    assert_eq!(window.classify(100_000_000), Pace::OnTarget);
    assert_eq!(window.classify(200_000_000), Pace::OnTarget);
    assert_eq!(window.classify(200_000_001), Pace::TooSlow);
    assert_eq!(window.classify(u128::MAX), Pace::TooSlow);
    let window = CycleWindow::around(u64::MAX);
    assert_eq!(window.hi, (u64::MAX as u128) * 2);
    let mut sizer = BatchSizer::new(64, 1 << 30);
    let window = CycleWindow::around(100_000_000);
    sizer.after_cycle(&window, 10_000_000);
    assert_eq!(sizer.work_size, 128);
    sizer.after_cycle(&window, 150_000_000);
    assert_eq!(sizer.work_size, 128);
    sizer.after_cycle(&window, 900_000_000);
    assert_eq!(sizer.work_size, 64);
}

#[test]
fn gpu_inputs() {
    let address = Address::from_str("k5ztameslf").unwrap();
    let t = Target {
        work: 12345,
        block: ShortHash([0xab, 0xce, 0x8f, 0x03, 0xb1, 0xd2]),
    };
    let mut inputs = MinerInputs::new(address, [7, 9], t);
    assert_eq!(&inputs.netstate, b"k5ztameslfabce8f03b1d2");
    assert_eq!(inputs.prefix, [7, 9]);
    assert_eq!(inputs.work, 12345);
    inputs.update_target(Target {
        work: 5,
        block: ShortHash([0; 6]),
    });
    assert_eq!(&inputs.netstate, b"k5ztameslf000000000000");
    assert_eq!(inputs.prefix, [7, 9]);
    assert_eq!(inputs.work, 5);
    assert_eq!(
        MinerState::with_offset(77),
        MinerState {
            offset: 77,
            solution: 0
        }
    );
}

fn block_for(address: &str, value: u32) -> Block {
    Block {
        height: 10,
        value,
        hash: kristforge::block::Hash([3; 32]),
        short_hash: ShortHash([3; 6]),
        address: Address::from_str(address).unwrap(),
    }
}

#[test]
fn coordinator_counts_its_own_blocks() {
    let mut coordinator = Coordinator::new(Address::from_str("k5ztameslf").unwrap());
    assert_eq!(coordinator.mined, 0);
    let own = ServerMessage::Target {
        msg_type: "response".to_string(),
        block: block_for("k5ztameslf", 25),
        work: 1000,
    };
    let expected = Some(Target {
        work: 1000,
        block: ShortHash([3; 6]),
    });
    assert_eq!(own.as_target(), expected);
    assert_eq!(coordinator.on_message(&own), expected);
    assert_eq!(coordinator.mined, 25);
    assert_eq!(coordinator.on_message(&own), expected);
    assert_eq!(coordinator.mined, 50);
    // a block of somebody else, and a block that is only announced
    let other = ServerMessage::Target {
        msg_type: "response".to_string(),
        block: block_for("kaaaaaaaaa", 25),
        work: 1000,
    };
    assert_eq!(coordinator.on_message(&other), expected);
    let event = ServerMessage::Target {
        msg_type: "event".to_string(),
        block: block_for("k5ztameslf", 25),
        work: 1000,
    };
    assert_eq!(coordinator.on_message(&event), expected);
    assert_eq!(coordinator.mined, 50);
    assert_eq!(coordinator.on_message(&ServerMessage::KeepAlive), None);
    assert_eq!(
        coordinator.on_message(&ServerMessage::Unknown { msg_type: None }),
        None
    );
    assert_eq!(ServerMessage::KeepAlive.as_target(), None);
    assert_eq!(coordinator.mined, 50);
    coordinator.mined = u64::MAX - 3;
    coordinator.on_message(&own);
    assert_eq!(coordinator.mined, u64::MAX);
}

#[test]
fn coordinator_life() {
    let mut coordinator = Coordinator::new(Address::from_str("k5ztameslf").unwrap());
    assert_eq!(coordinator.state, CoordinatorState::Starting);
    assert!(!coordinator.on_event(CoordinatorEvent::NodeClosed));
    assert_eq!(coordinator.state, CoordinatorState::Starting);
    assert!(!coordinator.on_event(CoordinatorEvent::WorkersSpawned));
    assert_eq!(coordinator.state, CoordinatorState::Active);
    // the mailboxes are closed on the way to draining
    assert!(coordinator.on_event(CoordinatorEvent::ForwardFailed));
    assert_eq!(coordinator.state, CoordinatorState::Draining);
    assert!(!coordinator.on_event(CoordinatorEvent::NodeClosed));
    assert_eq!(coordinator.state, CoordinatorState::Draining);
    assert!(!coordinator.on_event(CoordinatorEvent::WorkersJoined));
    assert_eq!(coordinator.state, CoordinatorState::Exited);
    assert_eq!(
        CoordinatorState::Active.step(CoordinatorEvent::NodeClosed),
        CoordinatorState::Draining
    );
    assert_eq!(
        CoordinatorState::Active.step(CoordinatorEvent::WorkersJoined),
        CoordinatorState::Active
    );
    assert_eq!(
        coordinator.on_tick(20_000, Elapsed::from_secs(1)),
        "20.00 kh/s"
    );
}

#[test]
fn kernel_names() {
    assert_eq!(KernelType::from_str("sha").unwrap(), KernelType::SHA);
    assert_eq!(KernelType::from_str("SHA").unwrap(), KernelType::SHA);
    assert_eq!(KernelType::from_str("Sha").unwrap(), KernelType::SHA);
    assert_eq!(
        KernelType::from_str("PORTABLE").unwrap(),
        KernelType::Unoptimized
    );
    assert_eq!(
        KernelType::from_str("Portable").unwrap(),
        KernelType::Unoptimized
    );
    // the names of the kernels are portable and sha, and no other
    assert_eq!(
        KernelType::from_str("unoptimized").unwrap_err(),
        InvalidKernelType("unoptimized".to_string())
    );
    assert_eq!(
        KernelType::from_str("Unoptimized").unwrap_err(),
        InvalidKernelType("unoptimized".to_string())
    );
    assert_eq!(
        KernelType::from_lowercase("unoptimized").unwrap_err(),
        InvalidKernelType("unoptimized".to_string())
    );
    assert_eq!(
        KernelType::from_str("sha ").unwrap_err(),
        InvalidKernelType("sha ".to_string())
    );
    assert_eq!(
        KernelType::from_lowercase("portable").unwrap(),
        KernelType::Unoptimized
    );
    assert_eq!(
        KernelType::from_str("portable").unwrap(),
        KernelType::Unoptimized
    );
    assert_eq!(
        KernelType::from_str("AVX2").unwrap_err(),
        InvalidKernelType("avx2".to_string())
    );
    assert_eq!(
        KernelType::from_str("").unwrap_err(),
        InvalidKernelType("".to_string())
    );
    assert_eq!(
        KernelType::from_lowercase("SHA").unwrap_err(),
        InvalidKernelType("SHA".to_string())
    );
    assert_eq!(KernelType::from_lowercase("sha").unwrap(), KernelType::SHA);
    assert_eq!(KernelType::default(), KernelType::Unoptimized);
    assert_eq!(KernelType::SHA.to_string(), "SHA");
    assert_eq!(KernelType::Unoptimized.to_string(), "unoptimized");
    assert_eq!(KernelType::SHA.name(), "SHA");
    assert!(KernelType::Unoptimized < KernelType::SHA);
}

#[test]
fn best_kernel() {
    assert_eq!(get_best_kernel(true), KernelType::SHA);
    assert_eq!(get_best_kernel(false), KernelType::Unoptimized);
    assert_eq!(
        get_supported_kernels(true),
        vec![KernelType::Unoptimized, KernelType::SHA]
    );
    assert_eq!(get_supported_kernels(false), vec![KernelType::Unoptimized]);
}

#[test]
fn vendor_names() {
    assert!(is_intel("genuineintel"));
    assert!(is_intel("intel"));
    assert!(is_intel("xintelx"));
    assert!(!is_intel("authenticamd"));
    assert!(!is_intel("inte"));
    assert!(!is_intel("intl"));
    assert!(!is_intel(""));
    assert!(!is_intel("GenuineIntel"));
    assert!(!is_intel("i n t e l"));
}

#[test]
fn cpu_miner() {
    let miner = CpuMiner::with_defaults(None, None, 8, KernelType::SHA);
    assert_eq!(miner.threads, 8);
    assert_eq!(miner.kernel_type, KernelType::SHA);
    assert_eq!(miner.describe(), "CPU [8x SHA]");
    let miner = CpuMiner::with_defaults(Some(12), Some(KernelType::Unoptimized), 8, KernelType::SHA);
    assert_eq!(miner.threads, 12);
    assert_eq!(miner.describe(), "CPU [12x unoptimized]");
    let miner = CpuMiner::new(Some(3), None, true).unwrap();
    assert_eq!(miner.describe(), "CPU [3x SHA]");
    let miner = CpuMiner::new(Some(0), Some(KernelType::Unoptimized), true).unwrap();
    assert_eq!(miner.describe(), "CPU [0x unoptimized]");
    let miner = CpuMiner::new(None, None, false).unwrap();
    assert_eq!(miner.kernel_type, KernelType::Unoptimized);
    assert_eq!(miner.threads, get_best_thread_count());
    // a kernel that needs extensions that are not there
    assert_eq!(
        CpuMiner::new(Some(3), Some(KernelType::SHA), false),
        Err(KernelNotSupported(KernelType::SHA))
    );
    assert_eq!(
        CpuMiner::new(Some(3), Some(KernelType::SHA), true).unwrap().kernel_type,
        KernelType::SHA
    );
    assert!(is_supported(None, false));
    assert!(is_supported(Some(KernelType::Unoptimized), false));
    assert!(is_supported(Some(KernelType::SHA), true));
    assert!(!is_supported(Some(KernelType::SHA), false));
    let info = get_cpu_info(false);
    assert!(info.cores >= 1);
    assert!(info.threads >= 1);
    assert!(info.default_miner_threads >= 1);
    assert!(get_best_thread_count() >= 1);
    assert!(
        info.default_miner_threads == kristforge::cpu::best_thread_count(info.cores, info.threads, true)
            || info.default_miner_threads
                == kristforge::cpu::best_thread_count(info.cores, info.threads, false)
    );
    assert_eq!(info.default_miner_threads, get_best_thread_count());
    assert_eq!(info.supported, vec![KernelType::Unoptimized]);
}

#[test]
fn miners_of_an_engine() {
    let pool = vec![2usize, 0, 1];
    let cpu = |threads| {
        Miner::Cpu(CpuMiner {
            kernel_type: KernelType::SHA,
            threads,
        })
    };
    let config = MinerConfig::default();
    assert_eq!(config.gpu_rate, 100_000_000);
    assert_eq!(config.gpu_max_worksize, 1 << 30);
    assert_eq!(
        plan_miners(&config, &pool, true, 4),
        Ok(vec![Miner::Gpu(0, 0), Miner::Gpu(0, 1), Miner::Gpu(2, 0), cpu(4)])
    );
    assert_eq!(plan_miners(&config, &vec![], true, 4), Ok(vec![cpu(4)]));
    assert_eq!(
        plan_miners(&config, &pool, false, 4),
        Ok(vec![
            Miner::Gpu(0, 0),
            Miner::Gpu(0, 1),
            Miner::Gpu(2, 0),
            Miner::Cpu(CpuMiner {
                kernel_type: KernelType::Unoptimized,
                threads: 4
            })
        ])
    );
    let threads = MinerConfig {
        cpu_threads: Some(7),
        ..config.clone()
    };
    assert_eq!(plan_miners(&threads, &vec![], true, 4), Ok(vec![cpu(7)]));
    let no_gpu = MinerConfig {
        no_gpu: true,
        ..config.clone()
    };
    assert_eq!(plan_miners(&no_gpu, &pool, true, 4), Ok(vec![cpu(4)]));
    let no_cpu = MinerConfig {
        no_cpu: true,
        ..config.clone()
    };
    assert_eq!(
        plan_miners(&no_cpu, &pool, true, 4),
        Ok(vec![Miner::Gpu(0, 0), Miner::Gpu(0, 1), Miner::Gpu(2, 0)])
    );
    assert_eq!(
        plan_miners(&no_cpu, &vec![], true, 4),
        Err(MinerError::NoMinersAvailable)
    );
    assert_eq!(
        plan_miners(&no_cpu, &vec![0, 0], true, 4),
        Err(MinerError::NoMinersAvailable)
    );
    let neither = MinerConfig {
        no_gpu: true,
        no_cpu: true,
        ..config.clone()
    };
    assert_eq!(
        plan_miners(&neither, &pool, true, 4),
        Err(MinerError::NoMinersAvailable)
    );
    // no thread to work with
    assert_eq!(
        plan_miners(&no_gpu, &pool, true, 0),
        Err(MinerError::NoMinersAvailable)
    );
    let no_threads = MinerConfig {
        no_gpu: true,
        cpu_threads: Some(0),
        ..config.clone()
    };
    assert_eq!(
        plan_miners(&no_threads, &pool, true, 4),
        Err(MinerError::NoMinersAvailable)
    );
}

#[test]
fn a_backend_that_fails_leaves_the_others() {
    let pool = vec![1usize];
    let sha = MinerConfig {
        cpu_kernel: Some(KernelType::SHA),
        ..MinerConfig::default()
    };
    // without the extensions the CPU miner cannot be had; the GPU miner stays
    assert_eq!(plan_miners(&sha, &pool, false, 4), Ok(vec![Miner::Gpu(0, 0)]));
    assert_eq!(
        plan_miners(&sha, &vec![], false, 4),
        Err(MinerError::NoMinersAvailable)
    );
    assert_eq!(
        plan_miners(&sha, &vec![], true, 4),
        Ok(vec![Miner::Cpu(CpuMiner {
            kernel_type: KernelType::SHA,
            threads: 4
        })])
    );
}

#[test]
fn selected_devices() {
    let pool = vec![2usize, 0, 3];
    let devices = |selectors: Vec<Selector>| MinerConfig {
        no_cpu: true,
        gpu_devices: Some(selectors),
        ..MinerConfig::default()
    };
    assert_eq!(
        plan_miners(&devices(vec![Selector::PlatformIndex(2)]), &pool, true, 4),
        Ok(vec![Miner::Gpu(2, 0), Miner::Gpu(2, 1), Miner::Gpu(2, 2)])
    );
    assert_eq!(
        plan_miners(
            &devices(vec![Selector::DeviceIndex(2, 1), Selector::DeviceIndex(0, 0)]),
            &pool,
            true,
            4
        ),
        Ok(vec![Miner::Gpu(0, 0), Miner::Gpu(2, 1)])
    );
    // a selector that names what is not there, the first of them
    assert_eq!(
        plan_miners(
            &devices(vec![
                Selector::All,
                Selector::DeviceIndex(0, 2),
                Selector::PlatformIndex(9)
            ]),
            &pool,
            true,
            4
        ),
        Err(MinerError::UnknownDevice(Selector::DeviceIndex(0, 2)))
    );
    assert_eq!(
        plan_miners(&devices(vec![Selector::PlatformIndex(3)]), &pool, true, 4),
        Err(MinerError::UnknownDevice(Selector::PlatformIndex(3)))
    );
    // nothing is selected, and nothing held against the pool, with the GPU off
    let off = MinerConfig {
        no_gpu: true,
        no_cpu: false,
        ..devices(vec![Selector::PlatformIndex(3)])
    };
    assert_eq!(
        plan_miners(&off, &pool, false, 2),
        Ok(vec![Miner::Cpu(CpuMiner {
            kernel_type: KernelType::Unoptimized,
            threads: 2
        })])
    );
    assert_eq!(
        plan_miners(&devices(vec![]), &pool, true, 4),
        Err(MinerError::NoMinersAvailable)
    );
    assert_eq!(
        plan_miners(&devices(vec![Selector::PlatformIndex(1)]), &pool, true, 4),
        Err(MinerError::NoMinersAvailable)
    );
    assert_eq!(
        create_miners(&devices(vec![Selector::DeviceIndex(2, 2)]), &pool, false),
        Ok(vec![Miner::Gpu(2, 2)])
    );
}

#[test]
fn work_in_32_bits() {
    let address = Address::from_str("k5ztameslf").unwrap();
    let block = ShortHash([0; 6]);
    assert!(MinerInputs::new(address, [0, 0], Target { work: 100_000, block }).work_fits());
    assert!(MinerInputs::new(address, [0, 0], Target { work: 0xffff_ffff, block }).work_fits());
    assert!(!MinerInputs::new(address, [0, 0], Target { work: 0x1_0000_0000, block }).work_fits());
}

fn nonce_of(n: u64) -> [u8; 11] {
    let mut nonce = [0u8; 11];
    for i in 0..11 {
        nonce[i] = (((n >> (6 * i)) & 0x3f) + 32) as u8;
    }
    nonce
}

#[test]
fn gpu_worker_cycle() {
    let address = Address::from_str("k5ztameslf").unwrap();
    let target = Target {
        work: 281474976710,
        block: ShortHash([0xab, 0xce, 0x8f, 0x03, 0xb1, 0xd2]),
    };
    let mut worker = GpuWorker::new(address, 1000, 64, 1 << 30, 100_000_000);
    assert_eq!(worker.state, WorkerState::Idle);
    assert_eq!(worker.next_dispatch(), None);
    assert_eq!(
        worker.after_dispatch(&nonce_of(176), 1),
        Cycle {
            solution: None,
            hashes: 0
        }
    );
    assert_eq!(worker.offset, 1000);
    worker.on_target(CurrentTarget::New(target));
    assert_eq!(worker.state, WorkerState::Running);
    assert_eq!(
        worker.next_dispatch(),
        Some(Dispatch {
            header: *b"k5ztameslfabce8f03b1d2",
            base: 1000,
            work: 281474976710,
            work_size: 64
        })
    );
    // nothing found, and quickly: the next dispatch is twice the size
    let cycle = worker.after_dispatch(&[0; 11], 10_000_000);
    assert_eq!(
        cycle,
        Cycle {
            solution: None,
            hashes: 64
        }
    );
    assert_eq!(worker.offset, 1064);
    assert_eq!(worker.sizer.work_size, 128);
    // a nonce that solves the target is handed in
    let cycle = worker.after_dispatch(&nonce_of(176), 100_000_000);
    assert_eq!(
        cycle,
        Cycle {
            solution: Some(Solution {
                address,
                nonce: nonce_of(176)
            }),
            hashes: 128
        }
    );
    assert_eq!(worker.offset, 1192);
    assert_eq!(worker.sizer.work_size, 128);
    // one that does not is not: its score is 75596447651733
    let cycle = worker.after_dispatch(&nonce_of(1), 900_000_000);
    assert_eq!(
        cycle,
        Cycle {
            solution: None,
            hashes: 128
        }
    );
    assert_eq!(worker.offset, 1320);
    assert_eq!(worker.sizer.work_size, 64);
    worker.on_send(true);
    assert_eq!(worker.state, WorkerState::Running);
    worker.on_target(CurrentTarget::Unchanged(target));
    assert_eq!(worker.state, WorkerState::Running);
    worker.on_send(false);
    assert_eq!(worker.state, WorkerState::Exited);
    assert_eq!(worker.next_dispatch(), None);
    let mut lost = GpuWorker::new(address, 0, 64, 1 << 30, 100_000_000);
    lost.on_target(CurrentTarget::New(target));
    lost.on_receiver_lost();
    assert_eq!(lost.state, WorkerState::Exited);
    assert_eq!(lost.next_dispatch(), None);
    let mut worker = GpuWorker::new(address, u64::MAX, 1, 4, 100);
    worker.on_target(CurrentTarget::New(target));
    worker.after_dispatch(&[0; 11], 0);
    assert_eq!(worker.offset, 0);
    worker.on_target(CurrentTarget::StopMining);
    assert_eq!(worker.state, WorkerState::Exited);
}

#[test]
fn gpu_host_helpers() {
    assert_eq!(solution_in(&[0; 11]), None);
    assert_eq!(solution_in(&nonce_of(5)), Some(nonce_of(5)));
    let mut last = [0u8; 11];
    last[10] = 1;
    assert_eq!(solution_in(&last), Some(last));
    assert_eq!(next_offset(10, 20), 30);
    assert_eq!(next_offset(u64::MAX, 1), 0);
    assert_eq!(next_offset(u64::MAX - 5, 10), 4);
    assert_eq!(round_worksize(0, 1024), 32);
    assert_eq!(round_worksize(31, 1024), 32);
    assert_eq!(round_worksize(32, 1024), 32);
    assert_eq!(round_worksize(63, 1024), 32);
    assert_eq!(round_worksize(64, 1024), 64);
    assert_eq!(round_worksize(1000, 1024), 992);
    assert_eq!(round_worksize(5000, 1024), 1024);
    assert_eq!(round_worksize(5000, 1000), 992);
    assert_eq!(round_worksize(5000, 10), 32);
    assert_eq!(round_worksize(u32::MAX, u32::MAX), 0xffff_ffe0);
}

#[test]
fn raw_targets() {
    let t = Target {
        work: 77,
        block: ShortHash([0xab, 0xce, 0x8f, 0x03, 0xb1, 0xd2]),
    };
    assert_eq!(CurrentTarget::New(t).into_raw(), Some((*b"abce8f03b1d2", 77)));
    assert_eq!(
        CurrentTarget::Unchanged(t).into_raw(),
        Some((*b"abce8f03b1d2", 77))
    );
    assert_eq!(CurrentTarget::StopMining.into_raw(), None);
    assert_eq!(CurrentTarget::New(t).target(), Ok(t));
    assert_eq!(CurrentTarget::Unchanged(t).target(), Ok(t));
    assert_eq!(CurrentTarget::StopMining.target(), Err(StopMining));
}

#[test]
fn benchmark_interface() {
    let mut speeds: Vec<String> = vec![];
    {
        let mut interface = BenchmarkInterface(|rate: HashRate| speeds.push(rate.to_string()));
        assert_eq!(interface.address().as_str(), "k123456789");
        assert_eq!(interface.prefix(), 0);
        assert_eq!(
            interface.target(),
            Ok(Target {
                work: 0,
                block: ShortHash([0; 6])
            })
        );
        let solution = Solution {
            address: interface.address(),
            nonce: nonce_of(1),
        };
        assert_eq!(interface.submit(solution), Ok(()));
        assert_eq!(interface.submit(solution), Ok(()));
        interface.hashes_completed(HashRate {
            hashes: 1_000,
            elapsed: Elapsed::from_secs(1),
        });
        interface.hashes_completed(HashRate {
            hashes: 64,
            elapsed: Elapsed {
                secs: 0,
                nanos: 500_000_000,
            },
        });
        // the target stays, whatever was submitted
        assert_eq!(interface.target().unwrap().work, 0);
    }
    assert_eq!(speeds, vec!["1.00 kh/s", "128.00 h/s"]);
}
