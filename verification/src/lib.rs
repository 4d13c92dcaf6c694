pub mod deployment_service;
pub mod handler;
pub mod jenkins_client;
pub mod models;
