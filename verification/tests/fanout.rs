use relay::event::PeerId;
use relay::fanout::FanOut;

#[test]
fn fresh_fan_out_has_everything_pending() {
    let fan_out = FanOut::new(vec![4, 5, 6], b"abc".to_vec());
    assert_eq!(fan_out.recipients(), &vec![4, 5, 6]);
    assert_eq!(fan_out.payload(), &b"abc".to_vec());
    assert!(!fan_out.is_complete());
    assert_eq!(fan_out.next_recipient(), Some(4));
    assert!(fan_out.delivered().is_empty());
    assert!(fan_out.failed().is_empty());
}

#[test]
fn recipients_are_tried_in_order() {
    let mut fan_out = FanOut::new(vec![9, 3, 7], vec![1]);
    assert_eq!(fan_out.next_recipient(), Some(9));
    fan_out.written(true);
    assert_eq!(fan_out.next_recipient(), Some(3));
    assert!(!fan_out.is_complete());
    fan_out.written(true);
    assert_eq!(fan_out.next_recipient(), Some(7));
    fan_out.written(true);
    assert_eq!(fan_out.next_recipient(), None);
    assert!(fan_out.is_complete());
    assert_eq!(fan_out.delivered(), vec![9, 3, 7]);
    assert!(fan_out.failed().is_empty());
}

#[test]
fn failed_write_does_not_stop_the_rest() {
    let mut fan_out = FanOut::new(vec![1, 2, 3, 4], b"B".to_vec());
    fan_out.written(true);
    assert_eq!(fan_out.next_recipient(), Some(2));
    fan_out.written(false);
    assert_eq!(fan_out.next_recipient(), Some(3));
    assert_eq!(fan_out.payload(), &b"B".to_vec());
    fan_out.written(true);
    fan_out.written(true);
    assert!(fan_out.is_complete());
    assert_eq!(fan_out.delivered(), vec![1, 3, 4]);
    assert_eq!(fan_out.failed(), vec![2]);
    assert_eq!(fan_out.recipients(), &vec![1, 2, 3, 4]);
    assert_eq!(fan_out.payload(), &b"B".to_vec());
}

#[test]
fn every_pattern_of_failures_reaches_all_whose_write_succeeds() {
    let recipients: Vec<PeerId> = vec![10, 20, 30, 40];
    for pattern in 0u32..16 {
        let mut fan_out = FanOut::new(recipients.clone(), vec![7, 7]);
        let mut expected_delivered = Vec::new();
        let mut expected_failed = Vec::new();
        for (at, peer) in recipients.iter().enumerate() {
            assert_eq!(fan_out.next_recipient(), Some(*peer));
            let ok = pattern & (1 << at) != 0;
            if ok {
                expected_delivered.push(*peer);
            } else {
                expected_failed.push(*peer);
            }
            fan_out.written(ok);
        }
        assert!(fan_out.is_complete());
        assert_eq!(fan_out.delivered(), expected_delivered);
        assert_eq!(fan_out.failed(), expected_failed);
    }
}

#[test]
fn failure_of_the_last_write_is_recorded() {
    let mut fan_out = FanOut::new(vec![1, 2], vec![]);
    fan_out.written(true);
    fan_out.written(false);
    assert!(fan_out.is_complete());
    assert_eq!(fan_out.delivered(), vec![1]);
    assert_eq!(fan_out.failed(), vec![2]);
}

#[test]
fn result_without_a_pending_write_is_ignored() {
    let mut fan_out = FanOut::new(vec![8], vec![0]);
    fan_out.written(false);
    assert!(fan_out.is_complete());
    fan_out.written(true);
    fan_out.written(false);
    assert!(fan_out.is_complete());
    assert_eq!(fan_out.next_recipient(), None);
    assert!(fan_out.delivered().is_empty());
    assert_eq!(fan_out.failed(), vec![8]);
}

#[test]
fn fan_out_to_nobody_is_complete_at_once() {
    let mut fan_out = FanOut::new(Vec::new(), b"unheard".to_vec());
    assert!(fan_out.is_complete());
    assert_eq!(fan_out.next_recipient(), None);
    fan_out.written(true);
    assert!(fan_out.delivered().is_empty());
    assert!(fan_out.failed().is_empty());
    assert_eq!(fan_out.payload(), &b"unheard".to_vec());
}
