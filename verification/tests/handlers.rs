use adinmo::database::{query_outcome, DatabaseError, Request, SqlErrorKind};
use adinmo::handlers::{
    create_reply, delete_reply, read_reply, request_from_create, request_from_update,
    update_reply, CreateData, UpdateData,
};
use adinmo::reply::{Reply, ReplyBody};

fn message(reply: &Reply) -> &str {
    match &reply.body {
        ReplyBody::JsonMessage(m) => m.as_str(),
        _ => panic!("not a message"),
    }
}

#[test]
fn create_bodies_become_rows_with_id_zero() {
    let r = request_from_create(CreateData { value: 7, response_body: "{}".to_string() });
    assert_eq!(r.id, 0);
    assert_eq!(r.generated_value, 7);
    assert_eq!(r.response_body, "{}");
}

#[test]
fn update_bodies_keep_their_id() {
    let r = request_from_update(UpdateData { id: 2, value: 20, response_body: "x".to_string() });
    assert_eq!(r.id, 2);
    assert_eq!(r.generated_value, 20);
    assert_eq!(r.response_body, "x");
}

#[test]
fn create_answers() {
    let ok = create_reply(&Ok(()));
    assert_eq!(ok.status, 201);
    assert_eq!(message(&ok), "Request created");
    let failed = create_reply(&Err(DatabaseError::QueryError));
    assert_eq!(failed.status, 500);
    assert_eq!(message(&failed), "Error creating request");
}

#[test]
fn read_answers() {
    let row = Request { id: 5, generated_value: 3, response_body: "b".to_string() };
    let ok = read_reply(Ok(row));
    assert_eq!(ok.status, 200);
    match ok.body {
        ReplyBody::JsonRecord(r) => {
            assert_eq!(r.id, 5);
            assert_eq!(r.generated_value, 3);
            assert_eq!(r.response_body, "b");
        }
        _ => panic!("not a record"),
    }
    for e in [DatabaseError::NotFound, DatabaseError::ConnectionError, DatabaseError::QueryError] {
        let missing = read_reply(Err(e));
        assert_eq!(missing.status, 404);
        assert_eq!(message(&missing), "Request not found");
    }
}

#[test]
fn update_answers() {
    let ok = update_reply(&Ok(()));
    assert_eq!(ok.status, 200);
    assert_eq!(message(&ok), "Request updated");
    let failed = update_reply(&Err(DatabaseError::NotFound));
    assert_eq!(failed.status, 500);
    assert_eq!(message(&failed), "Error updating request");
}

#[test]
fn delete_answers() {
    let ok = delete_reply(&Ok(()));
    assert_eq!(ok.status, 200);
    assert_eq!(message(&ok), "Request deleted");
    let failed = delete_reply(&Err(DatabaseError::ConnectionError));
    assert_eq!(failed.status, 500);
    assert_eq!(message(&failed), "Error deleting request");
}

#[test]
fn driver_failures_map_to_database_errors() {
    assert_eq!(DatabaseError::from(SqlErrorKind::RowNotFound), DatabaseError::NotFound);
    assert_eq!(DatabaseError::from(SqlErrorKind::PoolTimedOut), DatabaseError::ConnectionError);
    assert_eq!(DatabaseError::from(SqlErrorKind::Other), DatabaseError::QueryError);
}

#[test]
fn query_outcomes_keep_values_and_map_errors() {
    assert_eq!(query_outcome::<i32>(Ok(4)), Ok(4));
    assert_eq!(query_outcome::<()>(Err(SqlErrorKind::RowNotFound)), Err(DatabaseError::NotFound));
    assert_eq!(query_outcome::<()>(Err(SqlErrorKind::Other)), Err(DatabaseError::QueryError));
}

#[test]
fn rows_clone_field_by_field() {
    let row = Request { id: 1, generated_value: 2, response_body: "c".to_string() };
    let copy = row.clone();
    assert_eq!(copy.id, 1);
    assert_eq!(copy.generated_value, 2);
    assert_eq!(copy.response_body, "c");
}
