use nuri::extract::{cluster_pixels, initial_centroids, Cluster, Lab};

fn repeat(p: Lab, n: usize) -> Vec<Lab> {
    vec![p; n]
}

fn total(cs: &[Cluster]) -> usize {
    cs.iter().map(|c| c.count).sum()
}

#[test]
fn empty_pixels_give_no_clusters() {
    assert!(cluster_pixels(&vec![], 4).is_empty());
    assert!(cluster_pixels(&vec![], 1).is_empty());
}

#[test]
fn four_color_scenario_yields_four_clusters() {
    let red = Lab::new(5500, 7000, 4000);
    let blue = Lab::new(4000, 2000, -7000);
    let black = Lab::new(500, 0, 0);
    let white = Lab::new(9800, 0, 100);
    let mut pixels = Vec::new();
    pixels.extend(repeat(red, 40));
    pixels.extend(repeat(blue, 40));
    pixels.extend(repeat(black, 15));
    pixels.extend(repeat(white, 5));
    let cs = cluster_pixels(&pixels, 4);
    assert_eq!(cs.len(), 4);
    assert_eq!(total(&cs), 100);
    let mut found: Vec<(Lab, usize)> = cs.iter().map(|c| (c.centroid, c.count)).collect();
    found.sort_by_key(|x| x.1);
    assert_eq!(found[0], (white, 5));
    assert_eq!(found[1], (black, 15));
    assert!(found[2..].contains(&(red, 40)));
    assert!(found[2..].contains(&(blue, 40)));
}

#[test]
fn at_most_k_clusters_and_counts_sum() {
    let mut pixels = Vec::new();
    for i in 0..200i32 {
        pixels.push(Lab::new((i * 37) % 10000, (i * 91) % 12000 - 6000, (i * 53) % 9000 - 4500));
    }
    for k in 1..8 {
        let cs = cluster_pixels(&pixels, k);
        assert!(cs.len() <= k);
        assert!(!cs.is_empty());
        assert_eq!(total(&cs), 200);
        assert!(cs.iter().all(|c| c.count > 0));
    }
}

#[test]
fn more_clusters_than_pixels() {
    let pixels = vec![Lab::new(100, 0, 0), Lab::new(9000, 10, 10), Lab::new(100, 0, 0)];
    let cs = cluster_pixels(&pixels, 16);
    assert!(cs.len() <= 3);
    assert_eq!(total(&cs), 3);
}

#[test]
fn single_cluster_is_the_floor_mean() {
    let pixels = vec![Lab::new(0, -1, 5), Lab::new(3, 0, 6), Lab::new(4, -2, 6)];
    let cs = cluster_pixels(&pixels, 1);
    assert_eq!(cs, vec![Cluster { centroid: Lab::new(2, -1, 5), count: 3 }]);
}

#[test]
fn clustering_is_deterministic() {
    let mut pixels = Vec::new();
    for i in 0..120i32 {
        pixels.push(Lab::new((i * 71) % 10000, (i * 13) % 4000 - 2000, (i * 29) % 5000 - 2500));
    }
    assert_eq!(cluster_pixels(&pixels, 5), cluster_pixels(&pixels, 5));
}

#[test]
fn zero_k_gives_no_clusters() {
    assert!(cluster_pixels(&vec![Lab::new(1, 2, 3)], 0).is_empty());
}

#[test]
fn initial_centroids_are_evenly_spaced() {
    let pixels: Vec<Lab> = (0..10).map(|i| Lab::new(i, 0, 0)).collect();
    let c = initial_centroids(&pixels, 4);
    assert_eq!(c, vec![Lab::new(0, 0, 0), Lab::new(2, 0, 0), Lab::new(5, 0, 0), Lab::new(7, 0, 0)]);
    assert_eq!(initial_centroids(&pixels, 20).len(), 10);
}
