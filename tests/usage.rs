use dashboard::usage::{top_indices, CpuUsage, RamUsage, TOP_PROCESS_CAP};

#[test]
fn top_list_capped_and_descending() {
    let procs = vec![
        ("a".to_string(), 10u64),
        ("b".to_string(), 50),
        ("c".to_string(), 30),
        ("d".to_string(), 40),
        ("e".to_string(), 20),
    ];
    let ram = RamUsage::from_readings(500, 1000, &procs);
    assert_eq!(ram.percentage, 5000);
    assert_eq!(ram.top_processes.len(), TOP_PROCESS_CAP);
    let names: Vec<&str> = ram.top_processes.iter().map(|p| p.name.as_str()).collect();
    assert_eq!(names, vec!["b", "d", "c"]);
    assert_eq!(ram.top_processes[0].memory, 50);
    assert_eq!(ram.top_processes[0].percentage, 500);
    for w in ram.top_processes.windows(2) {
        assert!(w[0].memory > w[1].memory);
    }
}

#[test]
fn top_list_shorter_than_cap() {
    assert_eq!(top_indices(&vec![7, 9], 3), vec![1, 0]);
    assert_eq!(top_indices(&vec![], 3), Vec::<usize>::new());
}

#[test]
fn top_list_equal_keys_in_input_order() {
    assert_eq!(top_indices(&vec![5, 8, 5, 8], 3), vec![1, 3, 0]);
}

#[test]
fn ram_zero_total() {
    let ram = RamUsage::from_readings(0, 0, &vec![("x".to_string(), 4)]);
    assert_eq!(ram.percentage, 0);
    assert_eq!(ram.top_processes[0].percentage, 0);
}

#[test]
fn cpu_overall_is_mean_of_cores() {
    let cpu = CpuUsage::from_readings(&vec![1000, 2000, 4000], &vec![("p".to_string(), 300), ("q".to_string(), 900)]);
    assert_eq!(cpu.overall_usage, 2333);
    assert_eq!(cpu.cores.len(), 3);
    assert_eq!(cpu.cores[2].core_id, 2);
    assert_eq!(cpu.cores[2].usage, 4000);
    assert_eq!(cpu.top_processes[0].name, "q");
    assert_eq!(cpu.top_processes[1].name, "p");
}

#[test]
fn cpu_no_cores() {
    let cpu = CpuUsage::from_readings(&vec![], &vec![]);
    assert_eq!(cpu.overall_usage, 0);
    assert!(cpu.top_processes.is_empty());
}
