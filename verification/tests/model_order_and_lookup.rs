use live2d_chat_core::draw_order::draw_sequence;
use live2d_chat_core::model_lookup::find_id;

#[test]
fn draw_sequence_orders_by_draw_order() {
    assert_eq!(draw_sequence(&[]), Vec::<usize>::new());
    assert_eq!(draw_sequence(&[5]), vec![0]);
    assert_eq!(draw_sequence(&[3, 1, 2]), vec![1, 2, 0]);
    assert_eq!(draw_sequence(&[1, 2, 3, 4]), vec![0, 1, 2, 3]);
    assert_eq!(draw_sequence(&[4, 3, 2, 1]), vec![3, 2, 1, 0]);
    assert_eq!(draw_sequence(&[i32::MAX, i32::MIN, 0, -1]), vec![1, 3, 2, 0]);
}

#[test]
fn draw_sequence_keeps_equal_draw_orders_in_index_order() {
    assert_eq!(draw_sequence(&[500, 500, 500]), vec![0, 1, 2]);
    assert_eq!(draw_sequence(&[2, 1, 2, 1, 2]), vec![1, 3, 0, 2, 4]);
}

#[test]
fn draw_sequence_agrees_with_a_stable_sort() {
    let mut seed: u32 = 99;
    for round in 0..200 {
        let len = round % 40;
        let mut orders: Vec<i32> = Vec::new();
        for _ in 0..len {
            seed = seed.wrapping_mul(1103515245).wrapping_add(12345);
            orders.push(((seed >> 16) % 7) as i32 - 3);
        }
        let mut expected: Vec<usize> = (0..orders.len()).collect();
        expected.sort_by(|a, b| orders[*a].cmp(&orders[*b]));
        assert_eq!(draw_sequence(&orders), expected, "orders {:?}", orders);
    }
}

#[test]
fn find_id_gives_the_first_place() {
    let ids: Vec<String> = ["ParamAngleX", "ParamAngleY", "ParamEyeLOpen", "ParamAngleY"]
        .iter()
        .map(|id| id.to_string())
        .collect();
    assert_eq!(find_id(&ids, "ParamAngleX"), Some(0));
    assert_eq!(find_id(&ids, "ParamAngleY"), Some(1));
    assert_eq!(find_id(&ids, "ParamEyeLOpen"), Some(2));
    assert_eq!(find_id(&ids, "paramanglex"), None);
    assert_eq!(find_id(&ids, ""), None);
    assert_eq!(find_id(&Vec::new(), "ParamAngleX"), None);
}
