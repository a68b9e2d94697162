use benches::config::WorkloadConfig;

#[test]
fn draws_are_shifted_by_one() {
    let c = WorkloadConfig::from_draws(0, 4, 2, 9);
    assert_eq!(c.buffer_size, 1);
    assert_eq!(c.readers, 5);
    assert_eq!(c.writers, 3);
    assert_eq!(c.iterations, 10);
}

#[test]
fn last_writer_takes_the_remainder() {
    // 4 readers of 5 items: 20 items over 3 writers -> 6, 6, 8
    let c = WorkloadConfig::from_draws(2, 3, 2, 4);
    assert_eq!(c.total_items(), 20);
    assert_eq!(c.writer_iterations(), 6);
    assert_eq!(c.remainder(), 2);
    assert_eq!(c.writer_share(0), 6);
    assert_eq!(c.writer_share(1), 6);
    assert_eq!(c.writer_share(2), 8);
    assert_eq!(c.writer_shares(), vec![6, 6, 8]);
}

#[test]
fn shares_balance_every_configuration() {
    for b in 0..5 {
        for r in 0..5 {
            for w in 0..5 {
                for i in 0..10 {
                    let c = WorkloadConfig::from_draws(b, r, w, i);
                    let shares = c.writer_shares();
                    let produced: usize = shares.iter().sum();
                    assert_eq!(produced, c.readers * c.iterations);
                    assert_eq!(c.writer_iterations() * c.writers + c.remainder(), c.readers * c.iterations);
                    assert!(c.remainder() < c.writers);
                }
            }
        }
    }
}

#[test]
fn minimal_configuration() {
    let c = WorkloadConfig::minimal();
    assert_eq!(c.buffer_size, 1);
    assert_eq!(c.readers, 2);
    assert_eq!(c.iterations, 5);
    assert_eq!(c.writer_shares(), vec![10]);
}
