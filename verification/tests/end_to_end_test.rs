use tokio::io::{duplex, AsyncReadExt, AsyncWriteExt, DuplexStream};
use wrr_proxy::load_balancer::WeightedRoundRobinLB;
use wrr_proxy::relay::{Action, Event, Phase, Relay};
use wrr_proxy::shared::Shared;
use wrr_proxy::socket_address::SocketAddress;

/// Performs what the relay asks for until it asks to close. The connections are pipes
/// in memory; `backend` is the pipe to the backend, or nothing where the backend
/// cannot be reached.
async fn drive(mut client: DuplexStream, mut relay: Relay, mut backend: Option<DuplexStream>) {
    let mut connected: Option<DuplexStream> = None;
    let mut scratch: Vec<u8> = Vec::new();
    let mut action = Action::ReadFromClient;
    loop {
        action = match action {
            Action::ReadFromClient => {
                scratch.resize(relay.room(), 0);
                match client.read(&mut scratch[..]).await {
                    Ok(n) => relay.step(Event::Read(&scratch[..n])),
                    Err(_) => relay.step(Event::ReadFailed),
                }
            }
            Action::ConnectToBackend => match backend.take() {
                Some(pipe) => {
                    connected = Some(pipe);
                    relay.step(Event::Connected)
                }
                None => relay.step(Event::ConnectFailed),
            },
            Action::WriteToBackend => {
                match connected.as_mut().unwrap().write_all(relay.payload()).await {
                    Ok(()) => relay.step(Event::Written),
                    Err(_) => relay.step(Event::WriteFailed),
                }
            }
            Action::ReadFromBackend => {
                scratch.resize(relay.room(), 0);
                match connected.as_mut().unwrap().read(&mut scratch[..]).await {
                    Ok(n) => relay.step(Event::Read(&scratch[..n])),
                    Err(_) => relay.step(Event::ReadFailed),
                }
            }
            Action::WriteToClient => match client.write_all(relay.payload()).await {
                Ok(()) => relay.step(Event::Written),
                Err(_) => relay.step(Event::WriteFailed),
            },
            Action::Close => {
                assert_eq!(relay.phase(), Phase::Closed);
                return;
            }
        };
    }
}

fn pool() -> Shared<WeightedRoundRobinLB> {
    let a = SocketAddress::new(String::from("10.0.0.1"), String::from("80")).unwrap();
    let b = SocketAddress::new(String::from("10.0.0.2"), String::from("80")).unwrap();
    Shared::fill(vec![(a, 1), (b, 1)]).unwrap()
}

fn runtime() -> tokio::runtime::Runtime {
    tokio::runtime::Builder::new_multi_thread().worker_threads(2).build().unwrap()
}

/// One exchange through a relay whose backend answers every request with `reply`.
async fn exchange(relay: Relay, request: Vec<u8>, reply: Vec<u8>) -> (Vec<u8>, Vec<u8>) {
    let (mut client, proxy_side) = duplex(1 << 20);
    let (to_backend, mut backend_side) = duplex(1 << 20);
    let asked = request.len();
    let backend = tokio::spawn(async move {
        let mut got = vec![0u8; asked];
        backend_side.read_exact(&mut got).await.unwrap();
        backend_side.write_all(&reply).await.unwrap();
        backend_side.shutdown().await.unwrap();
        got
    });
    let proxy = tokio::spawn(drive(proxy_side, relay, Some(to_backend)));
    client.write_all(&request).await.unwrap();
    let mut answer = Vec::new();
    client.read_to_end(&mut answer).await.unwrap();
    proxy.await.unwrap();
    (backend.await.unwrap(), answer)
}

#[test]
fn ping_reaches_the_backend_and_pong_the_client() {
    runtime().block_on(async {
        let pool = pool();
        let target = pool.next_server();
        assert_eq!(target.get(), "10.0.0.1:80");
        let (seen, answer) = exchange(Relay::new(&target), b"PING".to_vec(), b"PONG".to_vec()).await;
        assert_eq!(seen, b"PING");
        assert_eq!(answer, b"PONG");
    });
}

#[test]
fn unreachable_backend_closes_the_client_and_spares_the_next() {
    runtime().block_on(async {
        let pool = pool();

        // the first connection goes to a backend that cannot be reached
        let target = pool.next_server();
        let (mut client, proxy_side) = duplex(1 << 16);
        let proxy = tokio::spawn(drive(proxy_side, Relay::new(&target), None));
        client.write_all(b"data").await.unwrap();
        let mut answer = Vec::new();
        client.read_to_end(&mut answer).await.unwrap();
        proxy.await.unwrap();
        assert!(answer.is_empty());

        // the next one is served, by the next backend
        let target = pool.next_server();
        assert_eq!(target.get(), "10.0.0.2:80");
        let (seen, answer) = exchange(Relay::new(&target), b"PING".to_vec(), b"PONG".to_vec()).await;
        assert_eq!(seen, b"PING");
        assert_eq!(answer, b"PONG");
    });
}

#[test]
fn backend_that_closes_without_a_word_gives_the_client_nothing() {
    runtime().block_on(async {
        let pool = pool();
        let target = pool.next_server();
        let (seen, answer) = exchange(Relay::new(&target), b"PING".to_vec(), Vec::new()).await;
        assert_eq!(seen, b"PING");
        assert!(answer.is_empty());
    });
}

#[test]
fn request_that_fills_the_buffer_is_forwarded_whole() {
    runtime().block_on(async {
        let pool = pool();
        let target = pool.next_server();
        let request = vec![7u8; 8193];
        let (mut client, proxy_side) = duplex(1 << 20);
        let (to_backend, mut backend_side) = duplex(1 << 20);
        let proxy = tokio::spawn(drive(proxy_side, Relay::new(&target), Some(to_backend)));
        client.write_all(&request).await.unwrap();
        // the read of 8193 bytes filled the buffer, so the relay reads again and the
        // request is complete when the client has no more to say
        client.shutdown().await.unwrap();
        let mut seen = vec![0u8; 8193];
        backend_side.read_exact(&mut seen).await.unwrap();
        assert_eq!(seen, request);
        backend_side.write_all(b"OK").await.unwrap();
        backend_side.shutdown().await.unwrap();
        let mut answer = Vec::new();
        client.read_to_end(&mut answer).await.unwrap();
        proxy.await.unwrap();
        assert_eq!(answer, b"OK");
    });
}
