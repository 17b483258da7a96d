use trunker::p25::nid::NidIntegrityPolicy;
use trunker::p25::types::Nac;
use trunker::pipeline::{
    decimation_factors, factor_into_stages, ChannelPipeline, DecimationError, Modulation,
    PipelineConfig, CHANNEL_RATE,
};

#[test]
fn pipeline_constructs_c4fm() {
    let config = PipelineConfig {
        sample_rate: 2_400_000,
        modulation: Modulation::C4fm,
        nid_integrity: NidIntegrityPolicy::default(),
        sync_timeout_samples: None,
    };
    let pipeline = ChannelPipeline::new(config).expect("2.4M should be valid");
    assert_eq!(pipeline.sample_count(), 0);
    assert_eq!(pipeline.current_nac(), Nac::new(0));
}

#[test]
fn pipeline_constructs_cqpsk() {
    let config = PipelineConfig {
        sample_rate: 2_400_000,
        modulation: Modulation::Cqpsk,
        nid_integrity: NidIntegrityPolicy::default(),
        sync_timeout_samples: None,
    };
    let pipeline = ChannelPipeline::new(config).expect("2.4M should be valid");
    assert_eq!(pipeline.sample_count(), 0);
    assert_eq!(pipeline.current_nac(), Nac::new(0));
}

#[test]
fn factor_into_stages_no_factor_exceeds_10() {
    // Verify all standard P25-compatible sample rates factor cleanly.
    let rates = [
        48_000, 240_000, 480_000, 1_200_000, 2_400_000, 3_000_000, 6_000_000, 9_000_000,
    ];
    for rate in rates {
        let total = (rate / CHANNEL_RATE) as usize;
        let factors = factor_into_stages(total).unwrap_or_else(|e| {
            panic!("rate {rate} (total {total}) should factor: {}", e.to_string());
        });
        for &f in &factors {
            assert!(f <= 10, "rate {rate}: factor {f} exceeds 10");
        }
        let product: usize = factors.iter().product();
        assert_eq!(product, total, "rate {rate}: product mismatch");
    }
}

#[test]
fn decimation_factors_2400k_two_stages_of_ten() {
    assert_eq!(decimation_factors(2_400_000, CHANNEL_RATE).unwrap(), vec![10, 10]);
}

#[test]
fn decimation_factors_single_stage() {
    assert_eq!(decimation_factors(48_000, CHANNEL_RATE).unwrap(), vec![2]);
}

#[test]
fn decimation_factors_identity_is_one_stage() {
    assert_eq!(decimation_factors(24_000, 24_000).unwrap(), vec![1]);
}

#[test]
fn decimation_factors_largest_first() {
    assert_eq!(decimation_factors(6_000_000, CHANNEL_RATE).unwrap(), vec![10, 5, 5]);
    assert_eq!(decimation_factors(3_000_000, CHANNEL_RATE).unwrap(), vec![5, 5, 5]);
    assert_eq!(decimation_factors(9_000_000, CHANNEL_RATE).unwrap(), vec![5, 5, 5, 3]);
    assert_eq!(decimation_factors(3_600_000, CHANNEL_RATE).unwrap(), vec![10, 5, 3]);
    assert_eq!(decimation_factors(2_400_000, 48_000).unwrap(), vec![10, 5]);
}

#[test]
fn decimation_factors_reject_invalid_rates() {
    assert_eq!(
        decimation_factors(2_000_000, CHANNEL_RATE),
        Err(DecimationError::NotDivisible {
            sample_rate: 2_000_000,
            target_rate: 24_000,
            nearest_lower: 1_992_000,
            nearest_higher: 2_016_000,
        })
    );
    assert_eq!(
        decimation_factors(0, CHANNEL_RATE),
        Err(DecimationError::NotDivisible {
            sample_rate: 0,
            target_rate: 24_000,
            nearest_lower: 24_000,
            nearest_higher: 24_000,
        })
    );
    let err = decimation_factors(2_400_000, 44_100).unwrap_err();
    assert!(err.to_string().contains("not a multiple of 44100"));
}

#[test]
fn factor_into_stages_reports_prime_totals() {
    assert_eq!(factor_into_stages(11), Err(DecimationError::NoValidFactoring { total: 11 }));
    assert_eq!(
        DecimationError::NoValidFactoring { total: 11 }.to_string(),
        "cannot factor total decimation 11x into stages of 25x or less"
    );
}

#[test]
fn pipeline_ignores_symbols_before_sync() {
    let config = PipelineConfig {
        sample_rate: 48_000,
        modulation: Modulation::C4fm,
        nid_integrity: NidIntegrityPolicy::Strict,
        sync_timeout_samples: Some(3),
    };
    let mut pipeline = ChannelPipeline::new(config).unwrap();
    assert!(pipeline.handle_symbol(trunker::p25::types::Dibit::new(1)).is_none());
    assert!(!pipeline.is_synced());
    pipeline.count_input_sample();
    assert_eq!(pipeline.sample_count(), 1);
    assert!(!pipeline.count_channel_sample());
    assert!(!pipeline.count_channel_sample());
    assert!(pipeline.count_channel_sample());
    assert!(!pipeline.count_channel_sample());
    pipeline.handle_sync();
    assert!(pipeline.is_synced());
    assert!(!pipeline.count_channel_sample());
}
