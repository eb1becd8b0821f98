use bitmex_outcomes::pages::paginate;
use bitmex_outcomes::pages::ResultsPage;
use bitmex_outcomes::pages::ResultsPages;

#[test]
fn zero_results_give_empty_plan() {
    let pages = ResultsPages::new(0);
    assert!(pages.0.is_empty());
}

#[test]
fn exact_multiple_gives_no_partial_page() {
    let pages = ResultsPages::new(500);
    assert_eq!(pages.0, vec![ResultsPage { count: 500, start: 0 }]);
}

#[test]
fn remainder_gets_one_final_partial_page() {
    let pages = ResultsPages::new(1200);
    assert_eq!(
        pages.0,
        vec![
            ResultsPage { count: 500, start: 0 },
            ResultsPage { count: 500, start: 500 },
            ResultsPage { count: 200, start: 1000 },
        ]
    );
}

#[test]
fn single_partial_page() {
    let pages = ResultsPages::new(499);
    assert_eq!(pages.0, vec![ResultsPage { count: 499, start: 0 }]);
}

#[test]
fn default_run_of_24_hours() {
    let pages = ResultsPages::new(24 * 60);
    assert_eq!(
        pages.0,
        vec![
            ResultsPage { count: 500, start: 0 },
            ResultsPage { count: 500, start: 500 },
            ResultsPage { count: 440, start: 1000 },
        ]
    );
}

#[test]
fn counts_cover_total_and_offsets_are_contiguous() {
    for (total, max) in [(0u32, 1u32), (1, 1), (7, 3), (1234, 100), (1000, 500), (17, 17)] {
        let pages = paginate(total, max);
        let mut sum: u64 = 0;
        let mut expected_start: u32 = 0;
        for page in &pages {
            assert!(page.count >= 1);
            assert!(page.count <= max);
            assert_eq!(page.start, expected_start);
            expected_start += page.count;
            sum += u64::from(page.count);
        }
        assert_eq!(sum, u64::from(total));
    }
}
