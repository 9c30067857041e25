use orchestrator::handlers::{label_creator_result, CreatorKind, TaskCreator, TaskCreatorEnum};

struct Fixed(Result<(Vec<u8>, u64), String>);

impl TaskCreator for Fixed {
    fn get_payload_and_round(&self) -> Result<(Vec<u8>, u64), String> {
        self.0.clone()
    }
}

#[test]
fn errors_are_marked_with_the_creator_kind() {
    assert_eq!(
        label_creator_result(CreatorKind::Creator, Err("no task".to_string())),
        Err("Creator error: no task".to_string())
    );
    assert_eq!(
        label_creator_result(CreatorKind::ListeningCreator, Err("closed".to_string())),
        Err("ListeningCreator error: closed".to_string())
    );
    assert_eq!(
        label_creator_result(CreatorKind::Creator, Ok((vec![1, 2], 7))),
        Ok((vec![1, 2], 7))
    );
}

#[test]
fn enum_forwards_to_the_creator_it_holds() {
    let c: TaskCreatorEnum<Fixed, Fixed> = TaskCreatorEnum::Creator(Fixed(Ok((vec![9], 4))));
    assert_eq!(c.get_payload_and_round(), Ok((vec![9], 4)));
    let l: TaskCreatorEnum<Fixed, Fixed> =
        TaskCreatorEnum::ListeningCreator(Fixed(Err("down".to_string())));
    assert_eq!(l.get_payload_and_round(), Err("ListeningCreator error: down".to_string()));
}
