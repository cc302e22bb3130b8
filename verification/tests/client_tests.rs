use tetr_monitor::client::{
    get_user_avatar_url, interpret_response, user_endpoint_url, user_records_endpoint_url,
    TetrResponse, TetrUser, TetrUserConnections, TetrUserDiscordConnection,
};
use tetr_monitor::error::FetchError;

#[test]
fn avatar_url_is_a_pure_function_of_the_id() {
    assert_eq!(
        get_user_avatar_url("5e32fc85ab319c2ab1beb07c"),
        "https://tetr.io/user-content/avatars/5e32fc85ab319c2ab1beb07c.jpg"
    );
    assert_eq!(
        get_user_avatar_url(""),
        "https://tetr.io/user-content/avatars/.jpg"
    );
}

#[test]
fn endpoint_urls_join_the_base_with_the_resource() {
    assert_eq!(user_endpoint_url("alice"), "https://ch.tetr.io/api/users/alice");
    assert_eq!(
        user_records_endpoint_url("5e32fc85"),
        "https://ch.tetr.io/api/users/5e32fc85/records"
    );
}

fn sample_user() -> TetrUser {
    TetrUser {
        _id: "id-a".to_string(),
        username: "alice".to_string(),
        ts: None,
        gamesplayed: 1,
        gameswon: 1,
        gametime: 60,
        country: None,
        connections: TetrUserConnections {
            discord: Some(TetrUserDiscordConnection {
                id: "1234".to_string(),
                username: "alice#1".to_string(),
            }),
        },
    }
}

#[test]
fn successful_envelope_with_payload_is_ok() {
    let r = interpret_response(TetrResponse {
        success: true,
        error: None,
        data: Some(sample_user()),
    });
    assert_eq!(r, Ok(sample_user()));
}

#[test]
fn failure_envelope_is_api_error_with_its_message() {
    let r = interpret_response(TetrResponse::<TetrUser> {
        success: false,
        error: Some("no such user".to_string()),
        data: None,
    });
    assert_eq!(r, Err(FetchError::RemoteApiError("no such user".to_string())));
}

#[test]
fn failure_envelope_without_message_reads_unknown() {
    // A false success flag wins even when a payload came along.
    let r = interpret_response(TetrResponse {
        success: false,
        error: None,
        data: Some(sample_user()),
    });
    assert_eq!(r, Err(FetchError::RemoteApiError("unknown".to_string())));
}

#[test]
fn successful_envelope_without_payload_is_not_found() {
    let r = interpret_response(TetrResponse::<TetrUser> {
        success: true,
        error: None,
        data: None,
    });
    assert_eq!(r, Err(FetchError::IdentityNotFound));
}
