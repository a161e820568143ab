use htip::config::BuildConfig;
use htip::config::OptimizeConfig;
use htip::config::ProjectConfig;
use htip::config::ProjectInfo;
use htip::config::ServerConfig;
use htip::memory::CAP_DOM_WRITE;
use htip::memory::CAP_NETWORK_FETCH;
use htip::memory::CapabilityFlags;
use htip::memory::CapabilityManifest;
use htip::memory::MANIFEST_MAGIC;
use htip::memory::MemoryManager;
use htip::memory::OpCode;
use htip::memory::RenderOp;
use htip::memory::STATE_REGION_SIZE;
use htip::stream::BinaryChunk;
use htip::stream::BinaryStreamer;
use htip::stream::ChunkType;
use htip::wire::Limits;

#[test]
fn test_chunk_priority() {
    let chunk1 = BinaryChunk::new(ChunkType::PageData, vec![1, 2, 3]);
    let chunk2 = BinaryChunk::new(ChunkType::Templates, vec![4, 5, 6]);
    let chunk3 = BinaryChunk::new(ChunkType::BaseMemory, vec![7, 8, 9]);

    assert_eq!(chunk1.priority, 2);
    assert_eq!(chunk2.priority, 0);
    assert_eq!(chunk3.priority, 1);
}

#[test]
fn test_chunk_ordering() {
    let mut streamer = BinaryStreamer::new();

    streamer.add_chunk(BinaryChunk::new(ChunkType::PageData, vec![1]));
    streamer.add_chunk(BinaryChunk::new(ChunkType::Templates, vec![2]));
    streamer.add_chunk(BinaryChunk::new(ChunkType::BaseMemory, vec![3]));

    let ordered = streamer.ordered_indices();

    assert_eq!(streamer.chunks[ordered[0]].chunk_type, ChunkType::Templates);
    assert_eq!(streamer.chunks[ordered[1]].chunk_type, ChunkType::BaseMemory);
    assert_eq!(streamer.chunks[ordered[2]].chunk_type, ChunkType::PageData);
}

#[test]
fn capability_flags() {
    let caps = CapabilityFlags(CAP_DOM_WRITE | CAP_NETWORK_FETCH);
    assert!(caps.has_capability(CAP_DOM_WRITE));
    assert!(caps.has_capability(CAP_NETWORK_FETCH));
    assert!(!caps.has_capability(htip::memory::CAP_WORKER_SPAWN));
}

#[test]
fn manifest_validation() {
    let good = CapabilityManifest {
        magic: MANIFEST_MAGIC,
        version: 1,
        capabilities: CapabilityFlags(0),
        checksum: 0,
        reserved: [0; 11],
    };
    assert!(good.validate().is_ok());
    let bad = CapabilityManifest { magic: 0, ..good };
    assert!(bad.validate().is_err());
}

#[test]
fn state_allocation_bumps_and_overflows() {
    let mut mm = MemoryManager::new();
    assert_eq!(mm.alloc_state(64), Ok(0));
    assert_eq!(mm.alloc_state(16), Ok(64));
    assert!(mm.alloc_state(STATE_REGION_SIZE as u32).is_err());
}

#[test]
fn render_op_constructors() {
    let clone_op = RenderOp::new_clone(3, 0);
    assert_eq!(clone_op.opcode, OpCode::Clone.code());
    assert_eq!(clone_op.arg1, 3);
    assert_eq!(clone_op.arg2, 0);
    let text_op = RenderOp::new_update_text(5, 100, 11);
    assert_eq!(text_op.opcode, OpCode::UpdateText.code());
    assert_eq!(text_op.arg1, 5);
    assert_eq!(text_op.arg2, 100);
    assert_eq!(text_op.arg3, 11);
}

#[test]
fn default_limits_match_documented_caps() {
    let lim = Limits::default();
    assert_eq!(lim.max_templates, 4096);
    assert_eq!(lim.max_strings, 65535);
    assert_eq!(lim.max_instances, 65535);
    assert_eq!(lim.max_stream_size, 16 * 1024 * 1024);
    assert_eq!(lim.max_path_depth, 32);
    assert_eq!(lim.max_batch_ops, 16384);
}

#[test]
fn config_accessors() {
    let cfg = ProjectConfig {
        project: ProjectInfo { name: "demo".to_string(), version: "0.1.0".to_string() },
        build: BuildConfig::default(),
        server: ServerConfig::default(),
        optimize: OptimizeConfig::default(),
    };
    assert_eq!(cfg.name(), "demo");
    assert_eq!(cfg.version(), "0.1.0");
    assert_eq!(cfg.runtime(), "auto");
    let fixed = ProjectConfig {
        build: BuildConfig { auto_select: false, ..BuildConfig::default() },
        ..cfg
    };
    assert_eq!(fixed.runtime(), "micro");
}
