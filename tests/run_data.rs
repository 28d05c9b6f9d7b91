use fredkin::run_data::{update_run_data, Run, RunData};

#[test]
fn new_run_data_is_empty() {
    let data = RunData::new();
    assert!(data.runs.is_empty());
}

#[test]
fn update_run_data_appends_in_order_per_chain_length() {
    let mut data = RunData::new();
    update_run_data(&mut data, 8, 40);
    update_run_data(&mut data, 10, 7);
    update_run_data(&mut data, 8, 12);
    assert_eq!(data.runs.get(&8), Some(&vec![40, 12]));
    assert_eq!(data.runs.get(&10), Some(&vec![7]));
    assert_eq!(data.runs.len(), 2);
}

#[test]
fn run_holds_its_step_count() {
    let run = Run { step_count: u128::MAX };
    assert_eq!(run, Run { step_count: u128::MAX });
}
