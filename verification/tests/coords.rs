use jp_plateau_tool::coords::{poslist_to_coords, Position};
use jp_plateau_tool::error::ExtractError;

fn pairs(ring: &Vec<Position>) -> Vec<Vec<f64>> {
    let mut out = Vec::new();
    for p in ring {
        out.push(vec![p.x.as_str().parse::<f64>().unwrap(), p.y.as_str().parse::<f64>().unwrap()]);
    }
    out
}

#[test]
fn axis_swap_and_z_strip() {
    let ring = poslist_to_coords("10.0 20.0 5.0 11.0 21.0 5.0").unwrap();
    assert_eq!(pairs(&ring), vec![vec![20.0, 10.0], vec![21.0, 11.0]]);
}

#[test]
fn positions_keep_the_text_of_their_numbers() {
    let ring = poslist_to_coords("35.6895 139.6917 12.30").unwrap();
    assert_eq!(ring.len(), 1);
    assert_eq!(ring[0].x.as_str(), "139.6917");
    assert_eq!(ring[0].y.as_str(), "35.6895");
}

#[test]
fn a_word_among_the_numbers_is_malformed() {
    assert_eq!(poslist_to_coords("10.0 twenty 5.0"), Err(ExtractError::MalformedNumber));
    assert_eq!(poslist_to_coords("10.0 20.0 N/A"), Err(ExtractError::MalformedNumber));
}

#[test]
fn any_whitespace_separates_numbers() {
    let ring = poslist_to_coords("\n  10.0 20.0\t5.0\r\n11.0\u{3000}21.0  5.0 \n").unwrap();
    assert_eq!(pairs(&ring), vec![vec![20.0, 10.0], vec![21.0, 11.0]]);
}

#[test]
fn no_number_no_position() {
    assert_eq!(poslist_to_coords("").unwrap().len(), 0);
    assert_eq!(poslist_to_coords(" \n\t ").unwrap().len(), 0);
}

#[test]
fn the_numbers_are_the_words_of_the_text() {
    let samples = ["1 2 3", " 1  2   3 ", "1\n2\n3", "a b c", "1 2", "", "  ", "1 2 3 4 5 6 7", "1,2,3"];
    for s in samples {
        let words: Vec<&str> = s.split_whitespace().collect();
        let all_numbers = words.iter().all(|w| w.parse::<f64>().is_ok());
        match poslist_to_coords(s) {
            Ok(ring) => {
                assert!(all_numbers && words.len() % 3 != 1, "{:?}", s);
                assert_eq!(ring.len(), (words.len() + 1) / 3, "{:?}", s);
                for (k, p) in ring.iter().enumerate() {
                    assert_eq!(p.x.as_str(), words[3 * k + 1]);
                    assert_eq!(p.y.as_str(), words[3 * k]);
                }
            }
            Err(ExtractError::MalformedNumber) => assert!(!all_numbers, "{:?}", s),
            Err(ExtractError::IncompleteCoordinate) => {
                assert!(all_numbers && words.len() % 3 == 1, "{:?}", s)
            }
            Err(e) => panic!("unexpected {:?} for {:?}", e, s),
        }
    }
}

#[test]
fn one_number_after_the_last_triple_is_incomplete() {
    assert_eq!(poslist_to_coords("1"), Err(ExtractError::IncompleteCoordinate));
    assert_eq!(poslist_to_coords("1 2 3 4"), Err(ExtractError::IncompleteCoordinate));
}

#[test]
fn a_malformed_number_outranks_an_incomplete_list() {
    assert_eq!(poslist_to_coords("1 2 3 x"), Err(ExtractError::MalformedNumber));
}

#[test]
fn two_numbers_after_the_last_triple_give_a_position() {
    let ring = poslist_to_coords("1 2 3 4 5").unwrap();
    assert_eq!(pairs(&ring), vec![vec![2.0, 1.0], vec![5.0, 4.0]]);
    let ring = poslist_to_coords("1 2").unwrap();
    assert_eq!(pairs(&ring), vec![vec![2.0, 1.0]]);
}

#[test]
fn a_closed_ring_of_four_points() {
    let ring = poslist_to_coords("0 0 0 0 1 0 1 1 0 0 0 0").unwrap();
    assert_eq!(
        pairs(&ring),
        vec![vec![0.0, 0.0], vec![1.0, 0.0], vec![1.0, 1.0], vec![0.0, 0.0]]
    );
}
