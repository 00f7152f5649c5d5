use extraspace::video::capture::{
    copy_video_frame, cursor_meta_range, cursor_meta_size, dequeue_only, find_cursor_meta,
    frame_route, is_dmabuf, offered_data, read_bitmap, read_cursor, stream_params,
    video_chunk_size, video_chunk_stride, video_enum_format, video_enum_format_dmabuf,
    wrap_dmabuf_frame, ByteOrder, CaptureData, CaptureWarnings, Chunk, CursorHead, DataBlock,
    DataKind, DmaBufImport, FormatCodes, FrameRoute, MetaBitmap, MetaCursor, MetaEntry, NegotiatedFormat, StreamParam, VideoStep,
};
use extraspace::video::cursor::{CursorHub, CursorMessage, CursorUpdate, Sprite};
use extraspace::video::encoder::{keyframe_interval_frames, Encoder, Setting};
use extraspace::video::pacing::{fetch_max, StagePace};
use extraspace::video::pipeline::{
    build_failure, pipeline_plan, require_encoder, take_access_unit, Delivery, Error, VideoConfig,
    VideoStats,
};
use extraspace::video::pixels::{argb_to_bgrx, pack_video, swap_rb, VideoFormat};

fn sample_sprite(x: i32, y: i32, pixel: u8) -> Sprite {
    Sprite {
        visible: true,
        x,
        y,
        hot_x: 1,
        hot_y: 2,
        width: 1,
        height: 1,
        pixels: vec![pixel, 0, 0, 255],
    }
}

fn block(kind: DataKind, chunk: Option<Chunk>) -> Option<DataBlock> {
    Some(DataBlock {
        kind,
        fd: 9,
        maxsize: 4096,
        chunk,
    })
}

fn chunk(offset: u32, size: u32, stride: i32) -> Option<Chunk> {
    Some(Chunk {
        offset,
        size,
        stride,
    })
}

fn import(spa_format: &'static str) -> DmaBufImport {
    DmaBufImport {
        spa_format,
        fourcc: "AR24",
        modifier: 0x0100_0000_0000_0002,
    }
}

#[test]
fn latest_cursor_position_wins() {
    let mut hub = CursorHub::new(60);
    let mut woken = hub.store_cursor(CursorUpdate::Bitmap(sample_sprite(10, 20, 9)));
    woken |= hub.store_cursor(CursorUpdate::Move { x: 11, y: 21 });
    woken |= hub.store_cursor(CursorUpdate::Move { x: 30, y: 40 });
    let msg = hub.take_cursor_message().unwrap();
    assert!(msg.visible);
    assert_eq!(msg.position, Some((30, 40)));
    assert!(msg.bitmap.is_some());
    assert!(woken);
    assert!(hub.take_cursor_message().is_none());
}

#[test]
fn unchanged_sprite_is_position_only() {
    let mut hub = CursorHub::new(60);
    hub.store_cursor(CursorUpdate::Bitmap(sample_sprite(10, 20, 9)));
    let _ = hub.take_cursor_message();
    hub.store_cursor(CursorUpdate::Bitmap(sample_sprite(15, 25, 9)));
    let msg = hub.take_cursor_message().unwrap();
    assert_eq!(msg.position, Some((15, 25)));
    assert!(msg.bitmap.is_none());
    assert!(msg.hotspot.is_none());
}

#[test]
fn a_new_shape_is_told_whole() {
    let mut hub = CursorHub::new(60);
    let mut sprite = sample_sprite(1, 2, 3);
    sprite.width = 70_000;
    sprite.hot_x = 70_000;
    hub.store_cursor(CursorUpdate::Bitmap(sprite));
    let msg = hub.take_cursor_message().unwrap();
    assert_eq!(msg.hotspot, Some((70_000i32 as i16, 2)));
    let bitmap = msg.bitmap.unwrap();
    assert_eq!((bitmap.width, bitmap.height), (65_535, 1));
    assert_eq!(bitmap.pixels, [3, 0, 0, 255]);
}

#[test]
fn a_hidden_cursor_is_told_once() {
    let mut hub = CursorHub::new(60);
    assert!(!hub.store_cursor(CursorUpdate::Hidden));
    assert!(hub.take_cursor_message().is_none());
    hub.store_cursor(CursorUpdate::Bitmap(sample_sprite(1, 2, 3)));
    let _ = hub.take_cursor_message();
    assert!(hub.store_cursor(CursorUpdate::Hidden));
    let msg = hub.take_cursor_message().unwrap();
    assert!(!msg.visible && msg.position.is_none() && msg.bitmap.is_none());
    let hidden = CursorMessage::hidden();
    assert!(!hidden.visible && hidden.hotspot.is_none());
    // It comes back where it was, without its shape being told again.
    assert!(hub.store_cursor(CursorUpdate::Move { x: 1, y: 2 }));
    let msg = hub.take_cursor_message().unwrap();
    assert!(msg.visible && msg.bitmap.is_none());
    assert_eq!(msg.position, Some((1, 2)));
    assert!(!hub.store_cursor(CursorUpdate::Move { x: 1, y: 2 }));
}

#[test]
fn a_cursor_without_a_shape_stays_out_of_sight() {
    let mut hub = CursorHub::new(60);
    assert!(hub.store_cursor(CursorUpdate::Move { x: 5, y: 6 }));
    assert!(!hub.take_cursor_message().unwrap().visible);
}

#[test]
fn captures_are_counted() {
    let mut hub = CursorHub::new(0);
    hub.count_frame();
    hub.count_frame();
    hub.count_push(true);
    hub.count_push(false);
    hub.count_push(false);
    hub.observe_copy_us(70);
    hub.observe_copy_us(30);
    assert_eq!(hub.take_capture_counts(), (2, 1, 2, 70));
    assert_eq!(hub.take_capture_counts(), (0, 0, 0, 0));
}

#[test]
fn caps_are_announced_once() {
    let mut hub = CursorHub::new(50);
    let plan = hub.on_video_frame(1332, 800);
    assert_eq!(plan.duration_ns, 20_000_000);
    let caps = plan.caps.unwrap();
    assert_eq!((caps.width, caps.height, caps.framerate), (1332, 800, 50));
    assert!(caps.drm_format.is_none());
    assert!(hub.on_video_frame(1332, 800).caps.is_none());
    let mut hub = CursorHub::new(0);
    let plan = hub.on_dmabuf_frame(4, 2, "AR24:0x0".to_string());
    assert_eq!(plan.duration_ns, 1_000_000_000);
    assert_eq!(plan.caps.unwrap().drm_format.as_deref(), Some("AR24:0x0"));
}

#[test]
fn rgbx_frame_is_packed_as_bgrx() {
    let src = [1u8, 2, 3, 4];
    let packed = pack_video(&src, 4, 1, 1, VideoFormat::RGBx).unwrap();
    assert_eq!(packed, vec![3, 2, 1, 4]);
}

#[test]
fn rows_lose_their_padding() {
    let src = [1u8, 2, 3, 4, 0, 0, 5, 6, 7, 8];
    assert_eq!(
        pack_video(&src, 6, 1, 2, VideoFormat::BGRA).unwrap(),
        [1, 2, 3, 4, 5, 6, 7, 8]
    );
    assert_eq!(
        pack_video(&src, 6, 1, 2, VideoFormat::ARGB).unwrap(),
        [4, 3, 2, 1, 8, 7, 6, 5]
    );
    assert_eq!(pack_video(&src, 6, 1, 3, VideoFormat::BGRA), None);
    assert_eq!(pack_video(&src, 3, 1, 1, VideoFormat::BGRA), None);
    assert_eq!(pack_video(&src, 6, 1, 1, VideoFormat::Other), None);
    assert_eq!(pack_video(&src, 6, 1, 0, VideoFormat::BGRx), Some(vec![]));
}

#[test]
fn rearranging_twice_restores() {
    let row = [1u8, 2, 3, 4, 5, 6, 7, 8];
    let mut once = [0u8; 8];
    let mut twice = [0u8; 8];
    swap_rb(&row, &mut once);
    assert_eq!(once, [3, 2, 1, 4, 7, 6, 5, 8]);
    swap_rb(&once, &mut twice);
    assert_eq!(twice, row);
    argb_to_bgrx(&row, &mut once);
    argb_to_bgrx(&once, &mut twice);
    assert_eq!(twice, row);
    let mut short = [9u8; 5];
    swap_rb(&row, &mut short);
    assert_eq!(short, [3, 2, 1, 4, 9]);
}

#[test]
fn cursor_metadata_is_found_and_read() {
    let meta = |cursor: bool, present: bool, size: u32| MetaEntry {
        cursor,
        present,
        size,
    };
    let metas = [
        meta(false, true, 99),
        meta(true, false, 99),
        meta(true, true, 27),
        meta(true, true, 28),
        meta(true, true, 99),
    ];
    assert_eq!(find_cursor_meta(&metas), Some(3));
    assert_eq!(find_cursor_meta(&metas[..3]), None);

    let cursor = MetaCursor {
        id: 1,
        flags: 0,
        x: 5,
        y: 6,
        hot_x: 1,
        hot_y: 2,
        bitmap_offset: 28,
    };
    assert_eq!(cursor.read_head(), CursorHead::BitmapAt(28));
    let moved = MetaCursor {
        bitmap_offset: 27,
        ..cursor
    };
    assert_eq!(moved.read_head(), CursorHead::Move { x: 5, y: 6 });
    let gone = MetaCursor { id: 0, ..cursor };
    assert_eq!(gone.read_head(), CursorHead::Hidden);
}

#[test]
fn cursor_bitmaps_are_packed() {
    let cursor = MetaCursor {
        id: 1,
        flags: 0,
        x: 5,
        y: 6,
        hot_x: 1,
        hot_y: 2,
        bitmap_offset: 28,
    };
    let bitmap = MetaBitmap {
        format: VideoFormat::RGBA,
        width: 1,
        height: 2,
        stride: 6,
        offset: 20,
    };
    let mut bytes = vec![0u8; 20];
    bytes.extend([1, 2, 3, 4, 99, 99, 5, 6, 7, 8]);
    match read_bitmap(&cursor, &bitmap, &bytes) {
        CursorUpdate::Bitmap(sprite) => {
            assert!(sprite.visible);
            assert_eq!((sprite.x, sprite.y, sprite.hot_x, sprite.hot_y), (5, 6, 1, 2));
            assert_eq!((sprite.width, sprite.height), (1, 2));
            assert_eq!(sprite.pixels, [3, 2, 1, 4, 7, 6, 5, 8]);
        }
        other => panic!("{other:?}"),
    }
    // Rows that are shorter than the pixels are filled up with zeros.
    let narrow = MetaBitmap {
        format: VideoFormat::BGRA,
        stride: 3,
        ..bitmap
    };
    match read_bitmap(&cursor, &narrow, &bytes) {
        CursorUpdate::Bitmap(sprite) => assert_eq!(sprite.pixels, [1, 2, 3, 0, 4, 99, 99, 0]),
        other => panic!("{other:?}"),
    }
    let hidden = |b: MetaBitmap, bytes: &[u8]| {
        matches!(read_bitmap(&cursor, &b, bytes), CursorUpdate::Hidden)
    };
    assert!(hidden(bitmap, &bytes[..29]));
    assert!(hidden(MetaBitmap { width: 0, ..bitmap }, &bytes));
    assert!(hidden(MetaBitmap { height: 0, ..bitmap }, &bytes));
    assert!(hidden(MetaBitmap { offset: 0, ..bitmap }, &bytes));
    assert!(hidden(MetaBitmap { stride: -6, ..bitmap }, &bytes));
    for format in [VideoFormat::xRGB, VideoFormat::Other] {
        assert!(hidden(MetaBitmap { format, ..bitmap }, &bytes));
    }
}

#[test]
fn a_single_row_may_name_any_stride() {
    let cursor = MetaCursor {
        id: 1,
        flags: 0,
        x: 5,
        y: 6,
        hot_x: 1,
        hot_y: 2,
        bitmap_offset: 28,
    };
    let bitmap = MetaBitmap {
        format: VideoFormat::BGRA,
        width: 1,
        height: 1,
        stride: -4,
        offset: 20,
    };
    let mut bytes = vec![0u8; 20];
    bytes.extend([1, 2, 3, 4]);
    match read_bitmap(&cursor, &bitmap, &bytes) {
        CursorUpdate::Bitmap(sprite) => assert_eq!(sprite.pixels, [1, 2, 3, 4]),
        other => panic!("{other:?}"),
    }
    assert!(matches!(
        read_bitmap(&cursor, &bitmap, &bytes[..23]),
        CursorUpdate::Hidden
    ));
}

#[test]
fn cursor_metadata_is_read_from_its_bytes() {
    let codes = FormatCodes {
        bgra: 12,
        bgrx: 8,
        rgba: 11,
        rgbx: 7,
        argb: 13,
    };
    let cursor = [1u32, 0, 5, -6i32 as u32, 1, 2, 32];
    // Four bytes lie between the two records.
    let bitmap = [0u32, 11, 1, 2, 4, 24];
    let pixels = [1u8, 2, 3, 4, 5, 6, 7, 8];
    let lay = |head: &[u32], order: ByteOrder| -> Vec<u8> {
        let mut bytes = Vec::new();
        for word in head.iter().chain(&bitmap) {
            bytes.extend(match order {
                ByteOrder::Little => word.to_le_bytes(),
                ByteOrder::Big => word.to_be_bytes(),
            });
        }
        bytes.extend([0; 4]);
        bytes.extend(pixels);
        bytes
    };
    for order in [ByteOrder::Little, ByteOrder::Big] {
        let bytes = lay(&cursor, order);
        match read_cursor(&bytes, &codes, order) {
            Some(CursorUpdate::Bitmap(sprite)) => {
                assert_eq!((sprite.x, sprite.y, sprite.hot_x, sprite.hot_y), (5, -6, 1, 2));
                assert_eq!((sprite.width, sprite.height), (1, 2));
                assert_eq!(sprite.pixels, [3, 2, 1, 4, 7, 6, 5, 8]);
            }
            other => panic!("{other:?}"),
        }
        assert!(matches!(
            read_cursor(&bytes[..51], &codes, order),
            Some(CursorUpdate::Hidden)
        ));
        assert!(matches!(
            read_cursor(&bytes[..bytes.len() - 1], &codes, order),
            Some(CursorUpdate::Hidden)
        ));
        assert!(read_cursor(&bytes[..27], &codes, order).is_none());
        let mut moved = cursor;
        moved[6] = 27;
        assert!(matches!(
            read_cursor(&lay(&moved, order), &codes, order),
            Some(CursorUpdate::Move { x: 5, y: -6 })
        ));
        let mut gone = cursor;
        gone[0] = 0;
        assert!(matches!(
            read_cursor(&lay(&gone, order), &codes, order),
            Some(CursorUpdate::Hidden)
        ));
        let mut outside = cursor;
        outside[6] = u32::MAX;
        assert!(matches!(
            read_cursor(&lay(&outside, order), &codes, order),
            Some(CursorUpdate::Hidden)
        ));
    }
    let unnamed = FormatCodes { rgba: 99, ..codes };
    assert!(matches!(
        read_cursor(&lay(&cursor, ByteOrder::Little), &unnamed, ByteOrder::Little),
        Some(CursorUpdate::Hidden)
    ));
}

#[test]
fn only_rows_that_are_measured_have_to_be_in_range() {
    let wide = u32::MAX / 4 + 1;
    let given = block(DataKind::DmaBuf, chunk(0, 64, 32));
    let inferred = block(DataKind::DmaBuf, chunk(0, 64, 0));
    assert_eq!(wrap_dmabuf_frame(given, wide).unwrap().stride, 32);
    let mut data = CaptureData::new(false, Some(import("BGRA")));
    data.format = NegotiatedFormat {
        format: VideoFormat::BGRA,
        width: wide,
        height: 1,
    };
    assert!(data.accepts(given, None) && !data.accepts(inferred, None));
    let memory = [0u8; 64];
    let mem = block(DataKind::MemPtr, chunk(0, 64, 32));
    assert!(!data.accepts(mem, Some(&memory)));
    assert!(data.accepts(mem, Some(&memory[..63])) && data.accepts(mem, None));
    data.format.format = VideoFormat::Other;
    assert!(data.accepts(mem, Some(&memory)));
    let mut hub = CursorHub::new(60);
    assert!(matches!(
        data.on_video(&mut hub, mem, Some(&memory)),
        VideoStep::Nothing
    ));
    assert!(data.warned.format);
    data.format.width = u32::MAX / 4;
    assert!(data.accepts(inferred, None));
}

#[test]
fn a_pipeline_takes_an_encoder() {
    assert!(matches!(require_encoder(Encoder::detect(false, true)), Ok(Encoder::OpenH264)));
    assert!(matches!(require_encoder(Encoder::detect(true, true)), Ok(Encoder::X264)));
    assert!(matches!(require_encoder(Encoder::detect(false, false)), Err(Error::NoEncoder)));
}

#[test]
fn buffers_are_told_apart() {
    let dma = block(DataKind::DmaBuf, chunk(16, 64, 32));
    let mem = block(DataKind::MemFd, chunk(0, 0, 8));
    assert!(is_dmabuf(dma) && !is_dmabuf(mem) && !is_dmabuf(None));
    assert_eq!((video_chunk_stride(dma), video_chunk_size(dma)), (32, 64));
    assert_eq!((video_chunk_stride(None), video_chunk_size(None)), (0, 0));
    assert_eq!(video_chunk_size(block(DataKind::MemPtr, None)), 0);
    assert_eq!(frame_route(true, true, dma), FrameRoute::Count);
    assert_eq!(frame_route(true, true, mem), FrameRoute::Ignore);
    assert_eq!(frame_route(false, true, dma), FrameRoute::Import);
    assert_eq!(frame_route(false, false, dma), FrameRoute::Copy);
    assert_eq!(frame_route(false, true, mem), FrameRoute::Copy);
}

#[test]
fn dma_bufs_keep_their_pitch() {
    let frame = wrap_dmabuf_frame(block(DataKind::DmaBuf, chunk(16, 64, 5376)), 1332).unwrap();
    assert_eq!(
        (frame.fd, frame.size, frame.offset, frame.stride),
        (9, 4096, 16, 5376)
    );
    let frame = wrap_dmabuf_frame(block(DataKind::DmaBuf, chunk(0, 64, 0)), 1332).unwrap();
    assert_eq!(frame.stride, 5328);
    assert!(wrap_dmabuf_frame(block(DataKind::MemFd, chunk(0, 64, 0)), 4).is_none());
    assert!(wrap_dmabuf_frame(block(DataKind::DmaBuf, chunk(0, 0, 0)), 4).is_none());
    assert!(wrap_dmabuf_frame(block(DataKind::DmaBuf, None), 4).is_none());
    assert!(wrap_dmabuf_frame(None, 4).is_none());
    let closed = Some(DataBlock {
        kind: DataKind::DmaBuf,
        fd: -1,
        maxsize: 1,
        chunk: chunk(0, 64, 0),
    });
    assert!(wrap_dmabuf_frame(closed, 4).is_none());
}

#[test]
fn frames_are_copied_out_of_their_chunk() {
    let mut warned = CaptureWarnings {
        unmapped: false,
        format: false,
    };
    let format = NegotiatedFormat {
        format: VideoFormat::RGBx,
        width: 1,
        height: 2,
    };
    let memory = [9u8, 9, 1, 2, 3, 4, 5, 6, 7, 8];
    let b = block(DataKind::MemPtr, chunk(2, 8, 0));
    let frame = copy_video_frame(b, Some(&memory), format, &mut warned).unwrap();
    assert_eq!((frame.width, frame.height), (1, 2));
    assert_eq!(frame.pixels, [3, 2, 1, 4, 7, 6, 5, 8]);
    assert!(copy_video_frame(b, Some(&memory[..9]), format, &mut warned).is_none());
    assert!(!warned.unmapped && !warned.format);
    assert!(copy_video_frame(b, None, format, &mut warned).is_none());
    assert!(warned.unmapped && !warned.format);
    let short = block(DataKind::MemPtr, chunk(2, 7, 0));
    assert!(copy_video_frame(short, Some(&memory), format, &mut warned).is_none());
    assert!(warned.format);
    assert!(copy_video_frame(None, Some(&memory), format, &mut warned).is_none());
    let unset = NegotiatedFormat { width: 0, ..format };
    assert!(copy_video_frame(b, Some(&memory), unset, &mut warned).is_none());
}

#[test]
fn a_capture_routes_its_buffers() {
    let mut hub = CursorHub::new(60);
    let mut data = CaptureData::new(false, Some(import("BGRA")));
    data.format = NegotiatedFormat {
        format: VideoFormat::BGRA,
        width: 1,
        height: 1,
    };
    let memory = [1u8, 2, 3, 4];
    let mem = block(DataKind::MemPtr, chunk(0, 4, 4));
    match data.on_video(&mut hub, mem, Some(&memory)) {
        VideoStep::Push { frame, plan } => {
            assert_eq!(frame.pixels, memory);
            assert!(plan.caps.is_some());
        }
        other => panic!("{other:?}"),
    }
    let dma = block(DataKind::DmaBuf, chunk(0, 4, 4));
    assert!(matches!(
        data.on_video(&mut hub, dma, None),
        VideoStep::Import(_)
    ));
    assert_eq!(hub.take_capture_counts().0, 1);
    let mut counting = CaptureData::new(true, None);
    assert!(matches!(
        counting.on_video(&mut hub, mem, Some(&memory)),
        VideoStep::Nothing
    ));
    assert_eq!(hub.take_capture_counts().0, 1);
    assert!(dequeue_only(Some("dequeue")) && !dequeue_only(Some("x")) && !dequeue_only(None));
}

#[test]
fn dma_buf_layouts_have_names() {
    assert_eq!(import("BGRA").video_format(), VideoFormat::BGRA);
    assert_eq!(import("RGBA").video_format(), VideoFormat::RGBA);
    assert_eq!(import("RGBx").video_format(), VideoFormat::RGBx);
    assert_eq!(import("xyz").video_format(), VideoFormat::BGRx);
    assert_eq!(import("BGRA").drm_format(), "AR24:0x0100000000000002");
    let linear = DmaBufImport {
        modifier: 0,
        ..import("BGRA")
    };
    assert_eq!(linear.drm_format(), format!("AR24:{:#018x}", 0));
}

#[test]
fn streams_are_offered_dma_bufs_first() {
    assert_eq!(stream_params(true)[0], StreamParam::DmaBufFormat);
    assert_eq!(stream_params(false)[0], StreamParam::MemoryFormat);
    assert_eq!(stream_params(true).len(), 4);
    assert_eq!(offered_data(true).len(), 3);
    assert!(!offered_data(false).contains(&DataKind::DmaBuf));
    let offer = video_enum_format(1332, 800);
    assert_eq!((offer.width, offer.height, offer.fastest), (1332, 800, Some(1000)));
    assert_eq!(offer.formats[0], VideoFormat::BGRx);
    assert_eq!(offer.formats.len(), 6);
    let offer = video_enum_format_dmabuf(1332, 800, &import("RGBA"));
    assert_eq!(offer.formats, [VideoFormat::RGBA]);
    assert_eq!(offer.modifier, Some(0x0100_0000_0000_0002));
    assert_eq!(cursor_meta_size(64, 64), 28 + 20 + 16_384);
    assert_eq!(cursor_meta_range(), (16_432, 28, 589_872));
}

#[test]
fn bitrate_units_differ_between_encoders() {
    assert_eq!(Encoder::X264.bitrate_property_value(15_000), 15_000);
    assert_eq!(Encoder::OpenH264.bitrate_property_value(15_000), 15_000_000);
}

#[test]
fn bitrate_conversion_cannot_overflow() {
    assert_eq!(Encoder::OpenH264.bitrate_property_value(u32::MAX), u32::MAX);
}

#[test]
fn x264_is_preferred_over_openh264() {
    assert_eq!(Encoder::PREFERENCE[0], Encoder::X264);
    assert_eq!(Encoder::detect(true, true), Some(Encoder::X264));
    assert_eq!(Encoder::detect(false, true), Some(Encoder::OpenH264));
    assert_eq!(Encoder::detect(false, false), None);
}

#[test]
fn keyframe_interval_assumes_the_idle_rate_not_the_nominal_one() {
    assert_eq!(keyframe_interval_frames(60), 24);
    assert_eq!(keyframe_interval_frames(30), 24);
    assert_eq!(keyframe_interval_frames(10), 20);
}

#[test]
fn keyframe_interval_is_never_degenerate() {
    for fps in [0, 1, 2, 5, 60, 240] {
        assert!(keyframe_interval_frames(fps) >= 2, "fps {fps}");
    }
}

#[test]
fn encoders_are_set_for_low_latency() {
    let words = |e: Encoder| -> Vec<(&'static str, String)> {
        e.build(15_000, 60)
            .iter()
            .map(|p| {
                let value = match p.value {
                    Setting::U32(n) => n.to_string(),
                    Setting::Word(w) => w.to_string(),
                    other => panic!("{other:?}"),
                };
                (p.name, value)
            })
            .collect()
    };
    let expected = |pairs: &[(&'static str, &str)]| -> Vec<(&'static str, String)> {
        pairs.iter().map(|(n, v)| (*n, v.to_string())).collect()
    };
    assert_eq!(
        words(Encoder::X264),
        expected(&[
            ("bitrate", "15000"),
            ("tune", "zerolatency"),
            ("speed-preset", "veryfast"),
            ("byte-stream", "true"),
            ("key-int-max", "24"),
        ])
    );
    assert_eq!(
        words(Encoder::OpenH264),
        expected(&[
            ("bitrate", "15000000"),
            ("rate-control", "bitrate"),
            ("complexity", "low"),
            ("gop-size", "24"),
        ])
    );
    assert_eq!(Encoder::X264.human_name(), "x264 (software, recommended)");
    assert_eq!(Encoder::OpenH264.human_name(), "OpenH264 (software, fallback)");
}

#[test]
fn the_pipeline_is_linked_in_order() {
    let plan = pipeline_plan(Encoder::OpenH264, VideoConfig::default());
    let factories: Vec<&str> = plan.iter().map(|e| e.factory).collect();
    assert_eq!(
        factories,
        [
            "appsrc",
            "videorate",
            "capsfilter",
            "videoconvert",
            "capsfilter",
            "openh264enc",
            "h264parse",
            "capsfilter",
            "appsink"
        ]
    );
    assert_eq!(plan[1].settings[0].name, "drop-only");
    assert!(matches!(plan[1].settings[0].value, Setting::Bool(true)));
    let caps = plan[0].caps.as_ref().unwrap();
    assert_eq!(caps.media, "video/x-raw");
    assert!(matches!(caps.fields[1].value, Setting::I32(1920)));
    assert!(matches!(caps.fields[3].value, Setting::Fraction(60)));
    assert!(matches!(plan[6].settings[0].value, Setting::I32(-1)));
    assert!(matches!(plan[8].settings[0].value, Setting::U32(1)));
    for (element, name) in [(&plan[0], "cursor-overlay"), (&plan[8], "frames")] {
        let last = element.settings.last().unwrap();
        assert_eq!(last.name, "name");
        assert!(matches!(last.value, Setting::Word(word) if word == name));
    }
}

#[test]
fn elements_that_cannot_be_built_are_named() {
    let fail = |factory| build_failure(Encoder::X264, factory, "why".to_string());
    assert!(matches!(fail("x264enc"), Error::Link(reason) if reason == "why"));
    for factory in ["openh264enc", "h264parse"] {
        assert!(matches!(fail(factory), Error::ElementMissing { element } if element == factory));
    }
}

#[test]
fn access_units_are_copied_and_counted() {
    let mut stats = VideoStats::default();
    let mut pace = StagePace::new("encoded");
    let (frame, gap) = take_access_unit(&[1, 2, 3], Some(7), false, 1_000, &mut stats, &mut pace);
    assert_eq!(&frame.data[..], &[1, 2, 3]);
    assert_eq!((frame.pts_us, frame.keyframe, frame.size()), (7, true, 3));
    let copy = frame.clone();
    drop(frame);
    assert_eq!(&copy.data[..], &[1, 2, 3]);
    assert_eq!((copy.pts_us, copy.keyframe, copy.size()), (7, true, 3));
    assert_eq!(gap, None);
    assert!(stats.settle(Delivery::Taken));
    let (frame, gap) = take_access_unit(&[4], None, true, 60_001_000, &mut stats, &mut pace);
    assert_eq!((frame.pts_us, frame.keyframe, frame.size()), (0, false, 1));
    assert_eq!(gap, Some(60_000));
    assert!(stats.settle(Delivery::Full));
    assert!(!stats.settle(Delivery::Closed));
    assert_eq!(stats.snapshot(), (1, 1, 4));
    assert_eq!((stats.last_au_bytes, stats.last_keyframe_bytes), (1, 3));
}

#[test]
fn gaps_are_measured_between_frames() {
    let mut pace = StagePace::new("capture");
    assert_eq!(pace.name(), "capture");
    assert_eq!(pace.observe(1_000_000), None);
    assert_eq!(pace.observe(50_999_999), None);
    assert_eq!(pace.observe(100_999_999), Some(50_000));
    assert_eq!(pace.observe(90_000_000), None);
    assert_eq!(pace.take(), (4, 1, 50_000));
    assert_eq!(pace.take(), (0, 0, 0));
    let mut slot = 3;
    fetch_max(&mut slot, 2);
    assert_eq!(slot, 3);
    fetch_max(&mut slot, 4);
    assert_eq!(slot, 4);
}

#[test]
fn failures_are_explained() {
    let text = |e: Error| e.message();
    assert_eq!(
        text(Error::NoEncoder),
        "no usable H.264 encoder found. Install gstreamer1-plugins-ugly (for x264enc) \
         or gstreamer1-plugin-openh264."
    );
    assert_eq!(
        text(Error::ElementMissing { element: "appsrc" }),
        "could not build the 'appsrc' element -- is its GStreamer plugin installed?"
    );
    assert_eq!(text(Error::Init("x".into())), "GStreamer init failed: x");
    assert_eq!(text(Error::Pipeline("x".into())), "GStreamer pipeline error: x");
    assert_eq!(text(Error::Capture("x".into())), "PipeWire capture failed: x");
    assert_eq!(text(Error::Link("x".into())), "failed to link the pipeline: x");
}
