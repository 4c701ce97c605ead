use mmo_server::definitions::{
    ClientRoute, Relevancy, ServerRoute, COND_NONE, COND_OWNERONLY, COND_SKIPOWNER, MSG_WORLD,
    SR_REGISTER_PROPERTY, SR_VOICE,
};

#[test]
fn server_route_codes_round_trip() {
    for t in 0u8..=SR_VOICE {
        let r = ServerRoute::from(t);
        assert_eq!(r.code(), t);
    }
    assert_eq!(ServerRoute::from(0), ServerRoute::Time);
    assert_eq!(ServerRoute::from(13), ServerRoute::RegistrationSpawned);
    assert_eq!(ServerRoute::from(14), ServerRoute::RegisterProperty);
    assert_eq!(ServerRoute::from(20), ServerRoute::Voice);
    assert_eq!(ServerRoute::RegisterProperty.code(), SR_REGISTER_PROPERTY);
}

#[test]
fn client_route_codes_round_trip() {
    assert_eq!(ClientRoute::from(0), ClientRoute::Ping);
    assert_eq!(ClientRoute::from(1), ClientRoute::World);
    assert_eq!(ClientRoute::from(2), ClientRoute::Avatar);
    assert_eq!(ClientRoute::from(4), ClientRoute::ByteArray);
    assert_eq!(ClientRoute::World.code(), MSG_WORLD);
    assert_eq!(ClientRoute::ByteArray.code(), 4);
}

#[test]
fn relevancy_codes() {
    assert_eq!(Relevancy::InitialOnly.code(), 0);
    assert_eq!(Relevancy::OwnerOnly.code(), COND_OWNERONLY);
    assert_eq!(Relevancy::SkipOwner.code(), COND_SKIPOWNER);
    assert_eq!(Relevancy::Unconditional.code(), COND_NONE);
    assert_eq!(Relevancy::Skip.code(), 9);
}
