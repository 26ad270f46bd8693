use vertx_http_gateway_connector::supervisor::{
    connect_failure, stop_message, ConnectionTask, RETRY_INTERVAL_SECS,
};
use vertx_http_gateway_connector::{Supervisor, SupervisorAction, SupervisorEvent};

fn dial_all(supervisor: &mut Supervisor, instance: u8) {
    for _ in 0..instance {
        assert_eq!(supervisor.action(), SupervisorAction::Dial);
        supervisor.on_event(SupervisorEvent::Dialed);
    }
    assert_eq!(supervisor.action(), SupervisorAction::Join);
}

#[test]
fn lost_connection_is_retried() {
    for instance in [1, 2, 255] {
        let mut supervisor = Supervisor::new(instance);
        dial_all(&mut supervisor, instance);
        supervisor.on_event(SupervisorEvent::Lost);
        assert_eq!(supervisor.action(), SupervisorAction::Pause);
        supervisor.on_event(SupervisorEvent::Paused);
        dial_all(&mut supervisor, instance);
    }
    assert_eq!(RETRY_INTERVAL_SECS, 5);
}

#[test]
fn finished_connections_are_waited_for() {
    let mut supervisor = Supervisor::new(2);
    dial_all(&mut supervisor, 2);
    supervisor.on_event(SupervisorEvent::Finished);
    assert_eq!(supervisor.action(), SupervisorAction::Join);
    supervisor.on_event(SupervisorEvent::Finished);
    assert_eq!(supervisor.action(), SupervisorAction::Join);
    supervisor.on_event(SupervisorEvent::NoneLeft);
    dial_all(&mut supervisor, 2);
}

#[test]
fn no_connections_are_dialed_if_none_are_wanted() {
    let mut supervisor = Supervisor::new(0);
    assert_eq!(supervisor.action(), SupervisorAction::Join);
    supervisor.on_event(SupervisorEvent::NoneLeft);
    assert_eq!(supervisor.action(), SupervisorAction::Join);
}

#[test]
fn reports_are_worded() {
    assert_eq!(
        connect_failure("ws://h", "no route"),
        "Failed to connect to ws://h due to no route"
    );
    assert_eq!(
        stop_message(ConnectionTask::Processor),
        "Connector message processor stopped unexpectedly!"
    );
    assert_eq!(
        stop_message(ConnectionTask::Writer),
        "Websocket message handler stopped unexpectedly!"
    );
    assert_eq!(
        stop_message(ConnectionTask::Pinger),
        "Websocket ping handler stopped unexpectedly!"
    );
}
