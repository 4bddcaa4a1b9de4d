pub mod rsa;
