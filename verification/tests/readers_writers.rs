use coord_kernel::monitor::ReaderWriterMonitor;
use coord_kernel::rwgate::GatePolicy;
use coord_kernel::rwgate::ReaderWriterGate;

#[test]
fn gate_readers_share_writer_excludes() {
    let mut g = ReaderWriterGate::new(GatePolicy::ReaderPriority);
    assert!(g.try_begin_read());
    assert!(g.try_begin_read());
    assert!(g.try_begin_read());
    assert_eq!(g.reader_count(), 3);
    // a reader and a writer are never inside together
    g.request_write();
    assert!(!g.try_begin_write());
    g.end_read();
    g.end_read();
    assert!(!g.try_begin_write());
    g.end_read();
    assert!(g.try_begin_write());
    assert!(g.is_writing());
    assert!(!g.try_begin_read());
    g.end_write();
    assert!(g.try_begin_read());
}

#[test]
fn gate_reader_priority_lets_readers_stream_past_waiting_writer() {
    // documented starvation: under reader priority, a waiting writer does
    // not stop new readers, so a continuous stream delays it arbitrarily
    let mut g = ReaderWriterGate::new(GatePolicy::ReaderPriority);
    assert!(g.try_begin_read());
    g.request_write();
    for _ in 0..10 {
        assert!(g.try_begin_read());
        assert!(!g.try_begin_write());
        g.end_read();
    }
    assert_eq!(g.writers_waiting(), 1);
    g.end_read();
    assert!(g.try_begin_write());
}

#[test]
fn gate_writer_priority_stops_new_readers() {
    let mut g = ReaderWriterGate::new(GatePolicy::WriterPriority);
    assert!(g.try_begin_read());
    g.request_write();
    // a waiting writer refuses new readers under writer priority
    assert!(!g.try_begin_read());
    g.end_read();
    assert!(g.try_begin_write());
    g.end_write();
    assert!(g.try_begin_read());
}

#[test]
fn monitor_excludes_writers_while_reading() {
    let mut m = ReaderWriterMonitor::new();
    assert!(m.try_start_read());
    assert!(m.try_start_read());
    assert_eq!(m.readers(), 2);
    assert!(!m.try_start_write());
    m.end_read();
    assert!(!m.try_start_write());
    m.end_read();
    assert!(m.try_start_write());
    assert!(m.is_writing());
    assert!(!m.try_start_read());
    assert!(!m.try_start_write());
    m.end_write();
    assert!(m.try_start_read());
    m.end_read();
}
