use bytes::BytesMut;
use perf_ring::per_cpu::{BPF_MAP_TYPE_PERF_EVENT_ARRAY, DEFAULT_PAGE_COUNT};
use perf_ring::{
    Action, Events, Layout, MapData, MapError, PerfBuffer, PerfBufferError, PerfMap,
    PerfMapBuffer, PerfMapError,
};
use std::io;

const PAGE: usize = 4096;

fn os_error(code: i32) -> io::Error {
    io::Error::from_raw_os_error(code)
}

/// The mapping of a ring: from the start of the perf event, for reading and
/// writing, shared with the kernel.
fn mmap_action(fd: i32, len: usize) -> Action {
    Action::Mmap { fd, len, offset: 0, read: true, write: true, shared: true }
}

fn perf_event_array(fd: Option<i32>) -> MapData {
    MapData { name: String::from("EVENTS"), map_type: BPF_MAP_TYPE_PERF_EVENT_ARRAY, fd }
}

#[test]
fn page_count_must_be_a_power_of_two() {
    for page_count in [0usize, 3, 5, 6, 7, 9] {
        match PerfBuffer::open(1, PAGE, page_count) {
            Err(PerfBufferError::InvalidPageCount { page_count: refused }) => {
                assert_eq!(refused, page_count)
            }
            other => panic!("{} pages gave {:?}", page_count, other),
        }
    }
    for page_count in [1usize, 2, 4, 8] {
        let opening = PerfBuffer::open(1, PAGE, page_count).unwrap();
        let buf = opening.opened(Ok(3)).unwrap().mapped(Ok(())).unwrap();
        assert_eq!(buf.size(), PAGE * page_count);
        assert_eq!(buf.page_size(), PAGE);
    }
}

#[test]
fn large_powers_of_two_are_accepted() {
    assert!(PerfBuffer::open(0, 1, 1 << 20).is_ok());
    assert!(PerfBuffer::open(0, 0, 1 << (usize::BITS - 1)).is_ok());
    assert!(matches!(
        PerfBuffer::open(0, 1, (1 << 20) + 1),
        Err(PerfBufferError::InvalidPageCount { page_count: 1_048_577 })
    ));
    assert!(matches!(
        PerfBuffer::open(0, 0, usize::MAX),
        Err(PerfBufferError::InvalidPageCount { page_count: usize::MAX })
    ));
}

#[test]
fn opening_goes_step_by_step() {
    let opening = PerfBuffer::open(5, PAGE, 2).unwrap();
    assert_eq!(opening.action(), Action::OpenEvent { cpu_id: 5 });

    let mapping = opening.opened(Ok(42)).unwrap();
    assert_eq!(mapping.action(), mmap_action(42, 3 * PAGE));
    assert_eq!(mapping.release(), Action::Close { fd: 42 });

    let buf = mapping.mapped(Ok(())).unwrap();
    assert_eq!(buf.as_raw_fd(), 42);
    assert_eq!(buf.layout(), Layout { page_size: PAGE, page_count: 2, size: 2 * PAGE });
    assert_eq!(buf.size(), 2 * PAGE);
    assert_eq!(buf.page_size(), PAGE);
    assert_eq!(buf.mmap_len(), 3 * PAGE);
    assert_eq!(buf.enable(), Action::Enable { fd: 42 });
    assert!(buf.enabled(Ok(())).is_ok());
}

#[test]
fn each_step_of_opening_has_its_own_failure() {
    let opening = PerfBuffer::open(0, PAGE, 1).unwrap();
    match opening.opened(Err(os_error(13))) {
        Err(PerfBufferError::OpenError { io_error }) => {
            assert_eq!(io_error.raw_os_error(), Some(13))
        }
        other => panic!("{:?}", other),
    }

    let mapping = PerfBuffer::open(0, PAGE, 1).unwrap().opened(Ok(9)).unwrap();
    match mapping.mapped(Err(os_error(12))) {
        Err(PerfBufferError::MMapError { io_error }) => {
            assert_eq!(io_error.raw_os_error(), Some(12))
        }
        other => panic!("{:?}", other),
    }

    let buf = PerfBuffer::open(0, PAGE, 1).unwrap().opened(Ok(9)).unwrap().mapped(Ok(())).unwrap();
    match buf.enabled(Err(os_error(22))) {
        Err(PerfBufferError::PerfEventEnableError { io_error }) => {
            assert_eq!(io_error.raw_os_error(), Some(22))
        }
        other => panic!("{:?}", other),
    }
}

#[test]
fn release_disables_unmaps_and_closes_in_that_order() {
    let buf = PerfBuffer::open(0, PAGE, 4).unwrap().opened(Ok(11)).unwrap().mapped(Ok(())).unwrap();
    assert_eq!(
        buf.release(),
        [Action::Disable { fd: 11 }, Action::Unmap { len: 5 * PAGE }, Action::Close { fd: 11 }]
    );
}

#[test]
fn perf_map_takes_perf_event_arrays_only() {
    assert!(PerfMap::new(perf_event_array(Some(3)), PAGE).is_ok());
    assert!(PerfMap::new(perf_event_array(None), PAGE).is_ok());
    for map_type in [0u32, 1, 2, 3, 5, 27, u32::MAX] {
        let map = MapData { name: String::from("OTHER"), map_type, fd: Some(3) };
        match PerfMap::new(map, PAGE) {
            Err(PerfMapError::MapError(MapError::InvalidMapType { map_type: refused })) => {
                assert_eq!(refused, map_type)
            }
            other => panic!("{:?}", other),
        }
    }
}

#[test]
fn perf_map_opens_with_two_pages_by_default() {
    assert_eq!(DEFAULT_PAGE_COUNT, 2);
    let mut map = PerfMap::new(perf_event_array(Some(3)), PAGE).unwrap();
    let opening = map.open(6, None).unwrap();
    assert_eq!(opening.action(), Action::OpenEvent { cpu_id: 6 });
    let mapping = opening.opened(Ok(20)).unwrap();
    assert_eq!(mapping.action(), mmap_action(20, 3 * PAGE));

    let mapping = map.open(6, Some(8)).unwrap().opened(Ok(21)).unwrap();
    assert_eq!(mapping.action(), mmap_action(21, 9 * PAGE));
}

#[test]
fn perf_map_refuses_a_bad_page_count() {
    let mut map = PerfMap::new(perf_event_array(Some(3)), PAGE).unwrap();
    for page_count in [0usize, 3, 5, 6, 7, 9] {
        match map.open(0, Some(page_count)) {
            Err(PerfMapError::PerfBufferError(PerfBufferError::InvalidPageCount {
                page_count: refused,
            })) => assert_eq!(refused, page_count),
            other => panic!("{:?}", other),
        }
    }
    for page_count in [1usize, 2, 4, 8] {
        assert!(map.open(0, Some(page_count)).is_ok());
    }
}

#[test]
fn perf_map_needs_a_created_map() {
    let mut map = PerfMap::new(perf_event_array(None), PAGE).unwrap();
    match map.open(0, None) {
        Err(PerfMapError::MapError(MapError::NotCreated { name })) => assert_eq!(name, "EVENTS"),
        other => panic!("{:?}", other),
    }
    // the map is asked for before the page count is looked at
    match map.open(0, Some(3)) {
        Err(PerfMapError::MapError(MapError::NotCreated { name })) => assert_eq!(name, "EVENTS"),
        other => panic!("{:?}", other),
    }
    let buf = PerfBuffer::open(0, PAGE, 1).unwrap().opened(Ok(9)).unwrap().mapped(Ok(())).unwrap();
    assert!(matches!(
        map.register(0, &buf),
        Err(PerfMapError::MapError(MapError::NotCreated { .. }))
    ));
}

#[test]
fn ring_buffer_is_registered_under_its_cpu() {
    let mut map = PerfMap::new(perf_event_array(Some(3)), PAGE).unwrap();
    let buf = map.open(2, None).unwrap().opened(Ok(30)).unwrap().mapped(Ok(())).unwrap();
    assert_eq!(map.register(2, &buf).unwrap(), Action::Register { map_fd: 3, index: 2, fd: 30, flags: 0 });
    assert!(map.registered(Ok(())).is_ok());
    match map.registered(Err(os_error(7))) {
        Err(PerfMapError::UpdateElementError { io_error }) => {
            assert_eq!(io_error.raw_os_error(), Some(7))
        }
        other => panic!("{:?}", other),
    }

    // a second opening of the same CPU is not refused
    let again = map.open(2, None).unwrap().opened(Ok(31)).unwrap().mapped(Ok(())).unwrap();
    assert_eq!(map.register(2, &again).unwrap(), Action::Register { map_fd: 3, index: 2, fd: 31, flags: 0 });
}

#[test]
fn perf_map_buffer_drains_its_ring() {
    let mut map = PerfMap::new(perf_event_array(Some(3)), PAGE).unwrap();
    let buf = map.open(0, Some(1)).unwrap().opened(Ok(30)).unwrap().mapped(Ok(())).unwrap();
    let mut ring = PerfMapBuffer::new(buf);
    assert_eq!(ring.as_raw_fd(), 30);
    assert_eq!(ring.buffer().size(), PAGE);

    let mut data = vec![0u8; PAGE];
    // a sample of two bytes
    data[..14].copy_from_slice(&[9, 0, 0, 0, 0, 0, 14, 0, 2, 0, 0, 0, 0xAA, 0xBB]);
    let mut tail = 0u64;
    let mut out = [BytesMut::with_capacity(2)];
    assert_eq!(
        ring.read_events(&data, 14, &mut tail, &mut out).unwrap(),
        Events { read: 1, lost: 0 }
    );
    assert_eq!(&out[0][..], &[0xAA, 0xBB]);
    assert_eq!(tail, 14);
    assert!(matches!(
        ring.read_events(&data, 14, &mut tail, &mut []),
        Err(PerfBufferError::NoBuffers)
    ));
}

#[test]
fn errors_convert_into_the_wider_ones() {
    assert!(matches!(
        PerfMapError::from(PerfBufferError::NoBuffers),
        PerfMapError::PerfBufferError(PerfBufferError::NoBuffers)
    ));
    assert!(matches!(
        PerfMapError::from(MapError::InvalidMapType { map_type: 1 }),
        PerfMapError::MapError(MapError::InvalidMapType { map_type: 1 })
    ));
    match PerfMapError::from(os_error(5)) {
        PerfMapError::IOError(e) => assert_eq!(e.raw_os_error(), Some(5)),
        other => panic!("{:?}", other),
    }
    match PerfBufferError::from(os_error(6)) {
        PerfBufferError::IOError(e) => assert_eq!(e.raw_os_error(), Some(6)),
        other => panic!("{:?}", other),
    }
}
