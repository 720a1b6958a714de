use std::collections::VecDeque;
use world_gen::chunk::build_stats::BuildStats;
use world_gen::chunk::chunk::Chunk;
use world_gen::chunk::chunk_error::ChunkError;
use world_gen::chunk::chunk_loader::ChunkLoader;
use world_gen::chunk::loader_model::ChunkStatus;
use world_gen::chunk::worker::{Completion, Job, Worker};
use world_gen::graphics::mesh::{Mesh, VAO};
use world_gen::height_map::HeightMap;

fn chunk(position: [i32; 2], lod: u32) -> Chunk<f32> {
    Chunk::new(position, lod, Mesh::from_vao(VAO::new(1, 6)), HeightMap::filled(2, 1, 0.5f32))
}

fn built(job: Job) -> Completion<f32> {
    Worker::report(job, Ok(chunk(job.position, job.lod)), 10)
}

fn failed(job: Job) -> Completion<f32> {
    Worker::report(job, Err(ChunkError::NoBufferBuilt(job.position)), 4)
}

#[test]
fn new_loader_knows_nothing() {
    let mut loader: ChunkLoader<f32> = ChunkLoader::new();
    assert_eq!(loader.status([0, 0]), ChunkStatus::Unloaded);
    assert_eq!(loader.next_job(), None);
    assert_eq!(loader.stats(), BuildStats::new());
    assert!(loader.get_chunk([0, 0]).is_none());
    assert!(loader.get_error([0, 0]).is_none());
}

#[test]
fn request_build_and_poll() {
    let mut loader: ChunkLoader<f32> = ChunkLoader::new();
    loader.request([3, -4], 0);
    assert_eq!(loader.status([3, -4]), ChunkStatus::Queued);
    let job = loader.next_job().unwrap();
    assert_eq!(job, Job { position: [3, -4], lod: 0 });
    assert_eq!(loader.status([3, -4]), ChunkStatus::Building);
    let mut arrived = VecDeque::new();
    arrived.push_back(built(job));
    assert_eq!(loader.poll_completed(&mut arrived), vec![[3, -4]]);
    assert!(arrived.is_empty());
    assert_eq!(loader.status([3, -4]), ChunkStatus::Ready);
    let ready = loader.get_chunk([3, -4]).unwrap();
    assert_eq!(ready.get_position(), [3, -4]);
    assert_eq!(ready.get_lod(), 0);
    let stats = loader.stats();
    assert_eq!(stats.requested, 1);
    assert_eq!(stats.dispatched, 1);
    assert_eq!(stats.built, 1);
    assert_eq!(stats.failed, 0);
    assert_eq!(stats.discarded, 0);
    assert_eq!(stats.build_time_ms, 10);
}

#[test]
fn requesting_twice_dispatches_one_job() {
    let mut loader: ChunkLoader<f32> = ChunkLoader::new();
    loader.request([1, 1], 0);
    loader.request([1, 1], 0);
    assert_eq!(loader.queue_len(), 1);
    assert_eq!(loader.stats().requested, 1);
    assert_eq!(loader.next_job(), Some(Job { position: [1, 1], lod: 0 }));
    assert_eq!(loader.next_job(), None);
    // a request while the chunk is building adds no job either
    loader.request([1, 1], 0);
    assert_eq!(loader.status([1, 1]), ChunkStatus::Building);
    assert_eq!(loader.next_job(), None);
    assert_eq!(loader.stats().dispatched, 1);
}

#[test]
fn request_for_a_ready_chunk_is_absorbed() {
    let mut loader: ChunkLoader<f32> = ChunkLoader::new();
    loader.request([1, 1], 1);
    let job = loader.next_job().unwrap();
    assert!(loader.complete(built(job)));
    loader.request([1, 1], 1);
    loader.request([1, 1], 2);
    assert_eq!(loader.status([1, 1]), ChunkStatus::Ready);
    assert_eq!(loader.next_job(), None);
    assert_eq!(loader.stats().requested, 1);
}

#[test]
fn late_result_for_a_released_position_is_dropped() {
    let mut loader: ChunkLoader<f32> = ChunkLoader::new();
    loader.request([5, 5], 0);
    let job = loader.next_job().unwrap();
    loader.release([5, 5]);
    assert_eq!(loader.status([5, 5]), ChunkStatus::Unloaded);
    let mut arrived = VecDeque::new();
    arrived.push_back(built(job));
    assert!(loader.poll_completed(&mut arrived).is_empty());
    assert_eq!(loader.status([5, 5]), ChunkStatus::Unloaded);
    assert!(loader.get_chunk([5, 5]).is_none());
    assert_eq!(loader.stats().discarded, 1);
    assert_eq!(loader.stats().built, 0);
    assert_eq!(loader.next_job(), None);
}

#[test]
fn release_of_a_queued_position_cancels_its_job() {
    let mut loader: ChunkLoader<f32> = ChunkLoader::new();
    loader.request([1, 0], 0);
    loader.request([2, 0], 0);
    loader.release([1, 0]);
    assert_eq!(loader.status([1, 0]), ChunkStatus::Unloaded);
    assert_eq!(loader.next_job(), Some(Job { position: [2, 0], lod: 0 }));
    assert_eq!(loader.next_job(), None);
    loader.release([9, 9]);
    assert_eq!(loader.status([9, 9]), ChunkStatus::Unloaded);
}

#[test]
fn released_position_waits_for_the_running_build() {
    let mut loader: ChunkLoader<f32> = ChunkLoader::new();
    loader.request([5, 5], 0);
    let first = loader.next_job().unwrap();
    loader.release([5, 5]);
    loader.request([5, 5], 0);
    assert_eq!(loader.status([5, 5]), ChunkStatus::Queued);
    // the first build still runs: no second job for the position
    assert_eq!(loader.next_job(), None);
    assert!(!loader.complete(built(first)));
    assert_eq!(loader.status([5, 5]), ChunkStatus::Queued);
    let second = loader.next_job().unwrap();
    assert_eq!(second, Job { position: [5, 5], lod: 0 });
    assert!(loader.complete(built(second)));
    assert_eq!(loader.status([5, 5]), ChunkStatus::Ready);
}

#[test]
fn failed_build_is_retried_only_on_request() {
    let mut loader: ChunkLoader<f32> = ChunkLoader::new();
    loader.request([0, 7], 2);
    let job = loader.next_job().unwrap();
    assert!(loader.complete(failed(job)));
    assert_eq!(loader.status([0, 7]), ChunkStatus::Failed);
    match loader.get_error([0, 7]) {
        Some(ChunkError::NoBufferBuilt(pos)) => assert_eq!(*pos, [0, 7]),
        _ => panic!("the error of the build is kept"),
    }
    assert_eq!(loader.next_job(), None);
    assert_eq!(loader.stats().failed, 1);
    assert_eq!(loader.stats().build_time_ms, 4);
    loader.request([0, 7], 2);
    assert_eq!(loader.status([0, 7]), ChunkStatus::Queued);
    assert_eq!(loader.next_job(), Some(Job { position: [0, 7], lod: 2 }));
}

#[test]
fn finer_request_replaces_the_queued_level() {
    let mut loader: ChunkLoader<f32> = ChunkLoader::new();
    loader.request([2, 2], 3);
    loader.request([2, 2], 1);
    assert_eq!(loader.queue_len(), 1);
    assert_eq!(loader.next_job(), Some(Job { position: [2, 2], lod: 1 }));
    assert_eq!(loader.next_job(), None);
}

#[test]
fn coarser_request_changes_nothing() {
    let mut loader: ChunkLoader<f32> = ChunkLoader::new();
    loader.request([2, 2], 1);
    loader.request([2, 2], 3);
    assert_eq!(loader.next_job(), Some(Job { position: [2, 2], lod: 1 }));
}

#[test]
fn finer_request_during_the_build_supersedes_it() {
    let mut loader: ChunkLoader<f32> = ChunkLoader::new();
    loader.request([2, 2], 3);
    let coarse = loader.next_job().unwrap();
    loader.request([2, 2], 0);
    assert_eq!(loader.status([2, 2]), ChunkStatus::Building);
    assert_eq!(loader.next_job(), None);
    assert!(!loader.complete(built(coarse)));
    assert_eq!(loader.status([2, 2]), ChunkStatus::Queued);
    let fine = loader.next_job().unwrap();
    assert_eq!(fine, Job { position: [2, 2], lod: 0 });
    assert!(loader.complete(built(fine)));
    assert_eq!(loader.get_chunk([2, 2]).unwrap().get_lod(), 0);
}

#[test]
fn finer_request_for_a_ready_chunk_builds_again() {
    let mut loader: ChunkLoader<f32> = ChunkLoader::new();
    loader.request([2, 2], 2);
    let job = loader.next_job().unwrap();
    assert!(loader.complete(built(job)));
    loader.request([2, 2], 0);
    assert_eq!(loader.status([2, 2]), ChunkStatus::Queued);
    assert_eq!(loader.next_job(), Some(Job { position: [2, 2], lod: 0 }));
}

#[test]
fn result_that_nobody_waits_for_is_dropped() {
    let mut loader: ChunkLoader<f32> = ChunkLoader::new();
    assert!(!loader.complete(built(Job { position: [8, 8], lod: 0 })));
    assert_eq!(loader.status([8, 8]), ChunkStatus::Unloaded);
    loader.request([8, 8], 0);
    assert!(!loader.complete(built(Job { position: [8, 8], lod: 0 })));
    assert_eq!(loader.status([8, 8]), ChunkStatus::Queued);
    assert_eq!(loader.stats().discarded, 2);
}

#[test]
fn poll_reports_in_the_order_of_arrival() {
    let mut loader: ChunkLoader<f32> = ChunkLoader::new();
    loader.request([1, 0], 0);
    loader.request([2, 0], 0);
    loader.request([3, 0], 0);
    let a = loader.next_job().unwrap();
    let b = loader.next_job().unwrap();
    let c = loader.next_job().unwrap();
    assert_eq!([a.position, b.position, c.position], [[1, 0], [2, 0], [3, 0]]);
    loader.release([2, 0]);
    let mut arrived = VecDeque::new();
    arrived.push_back(built(c));
    arrived.push_back(built(b));
    arrived.push_back(failed(a));
    assert_eq!(loader.poll_completed(&mut arrived), vec![[3, 0], [1, 0]]);
    assert_eq!(loader.status([1, 0]), ChunkStatus::Failed);
    assert_eq!(loader.status([2, 0]), ChunkStatus::Unloaded);
    assert_eq!(loader.status([3, 0]), ChunkStatus::Ready);
    let mut nothing = VecDeque::new();
    assert!(loader.poll_completed(&mut nothing).is_empty());
}

#[test]
fn positions_at_the_ends_of_the_range_are_distinct() {
    let mut loader: ChunkLoader<f32> = ChunkLoader::new();
    let corners = [
        [i32::MIN, i32::MIN],
        [i32::MIN, i32::MAX],
        [i32::MAX, i32::MIN],
        [i32::MAX, i32::MAX],
        [0, -1],
        [-1, 0],
    ];
    for (lod, corner) in corners.iter().enumerate() {
        loader.request(*corner, lod as u32);
    }
    for (lod, corner) in corners.iter().enumerate() {
        assert_eq!(loader.status(*corner), ChunkStatus::Queued);
        assert_eq!(loader.next_job(), Some(Job { position: *corner, lod: lod as u32 }));
    }
    assert_eq!(loader.next_job(), None);
}

#[test]
fn build_stats_counters() {
    let mut stats = BuildStats::new();
    assert_eq!(stats.average_build_time_ms(), None);
    stats.record_request();
    stats.record_dispatch();
    stats.record_build(10);
    stats.record_failure(5);
    stats.record_discard();
    assert_eq!(
        stats,
        BuildStats {
            requested: 1,
            dispatched: 1,
            built: 1,
            failed: 1,
            discarded: 1,
            build_time_ms: 15
        }
    );
    assert_eq!(stats.average_build_time_ms(), Some(7));
    stats.record_build(u64::MAX);
    assert_eq!(stats.build_time_ms, u64::MAX);
    assert_eq!(stats.built, 2);
}

#[test]
fn worker_reports_the_job_and_the_outcome() {
    let job = Job { position: [4, -4], lod: 3 };
    let done = Worker::report(job, Ok(chunk([4, -4], 3)), 12);
    assert_eq!(done.position, [4, -4]);
    assert_eq!(done.lod, 3);
    assert_eq!(done.elapsed_ms, 12);
    assert!(done.result.is_ok());
    let done: Completion<f32> = Worker::report(job, Err(ChunkError::NoBufferBuilt([4, -4])), 1);
    match done.result {
        Err(ChunkError::NoBufferBuilt(pos)) => assert_eq!(pos, [4, -4]),
        _ => panic!("the failure is reported as it is"),
    }
}
